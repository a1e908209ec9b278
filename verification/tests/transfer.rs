use soulframe_language_downloader::{
    b64m_decode, b64m_encode, check_download, is_plain_container, needs_download, FormatError,
    HashCheck, ShccData, TYPE_BIN, TYPE_MANIFEST,
};

fn sample() -> ShccData {
    let mut h: Vec<u8> = (0..16u8).collect();
    h.extend_from_slice(b"hello world");
    ShccData { h, b: None, b_raw: None }
}

#[test]
fn file_type_constants() {
    assert_eq!(TYPE_MANIFEST, 0xE);
    assert_eq!(TYPE_BIN, 0x2C);
}

#[test]
fn b64m_encode_writes_dash_for_slash() {
    assert_eq!(b64m_encode(&[0xFF, 0xFF, 0xFF, 0x00]), "----AA");
    assert_eq!(b64m_encode(&[0xFB, 0xFF, 0xBF]), "+-+-");
    assert_eq!(b64m_encode(b"some bytes"), "c29tZSBieXRlcw");
    assert_eq!(b64m_encode(&[]), "");
}

#[test]
fn b64m_decode_reads_dash_as_slash() {
    assert_eq!(b64m_decode("----AA"), Ok(vec![0xFF, 0xFF, 0xFF, 0x00]));
    assert_eq!(b64m_decode("+-+-"), Ok(vec![0xFB, 0xFF, 0xBF]));
    assert_eq!(b64m_decode("////AA"), Ok(vec![0xFF, 0xFF, 0xFF, 0x00]));
    assert_eq!(b64m_decode(""), Ok(Vec::new()));
}

#[test]
fn b64m_decode_refuses_what_is_not_base64() {
    assert_eq!(b64m_decode("a"), Err(FormatError::InvalidBase64));
    assert_eq!(b64m_decode("ab!d"), Err(FormatError::InvalidBase64));
    assert_eq!(b64m_decode("YQ=="), Err(FormatError::InvalidBase64));
}

#[test]
fn b64m_round_trip() {
    for len in 0..40usize {
        let data: Vec<u8> = (0..len).map(|k| (k * 37 + 11) as u8 | 0xC0).collect();
        assert_eq!(b64m_decode(&b64m_encode(&data)), Ok(data));
    }
}

#[test]
fn default_hash_decodes_to_sixteen_bytes() {
    let bytes = b64m_decode("---------------------w").unwrap();
    assert_eq!(bytes, vec![0xFFu8; 16]);
}

#[test]
fn plain_container_starts_with_shcc() {
    assert!(is_plain_container(b"SHCC\x1f\0\0\0rest"));
    assert!(is_plain_container(b"SHCC"));
    assert!(!is_plain_container(b"SHC"));
    assert!(!is_plain_container(b"shcc...."));
    assert!(!is_plain_container(b"\x8cSHCC"));
    assert!(!is_plain_container(b""));
}

#[test]
fn download_with_matching_hash() {
    assert_eq!(check_download(&sample(), "HKGzXIu9PVCD6mecqeugKg", false), HashCheck::Matches);
}

#[test]
fn download_with_dash_in_hash() {
    let mut h = vec![0u8; 16];
    h.extend_from_slice(&[1, 0]);
    let data = ShccData { h, b: None, b_raw: None };
    assert_eq!(check_download(&data, "eCTJT-tANsGge-cry9YxwQ", false), HashCheck::Matches);
    assert_eq!(check_download(&data, "eCTJT+tANsGge+cry9YxwQ", false), HashCheck::Mismatch);
}

#[test]
fn download_with_other_hash() {
    assert_eq!(check_download(&sample(), "HKGzXIu9PVCD6mecqeugKw", false), HashCheck::Mismatch);
    assert_eq!(check_download(&sample(), "AAAA", false), HashCheck::Mismatch);
}

#[test]
fn download_without_declared_hash_is_not_checked() {
    assert_eq!(check_download(&sample(), "---------------------w", false), HashCheck::Skipped);
    assert_eq!(check_download(&sample(), "---------------------w", true), HashCheck::Skipped);
}

#[test]
fn download_that_was_compressed_as_a_whole_is_not_checked() {
    assert_eq!(check_download(&sample(), "HKGzXIu9PVCD6mecqeugKw", true), HashCheck::Skipped);
    assert_eq!(check_download(&sample(), "not base64!", true), HashCheck::Skipped);
}

#[test]
fn download_with_undecodable_hash() {
    assert_eq!(check_download(&sample(), "not base64!", false), HashCheck::Undecodable);
}

#[test]
fn file_on_disk_with_declared_hash_is_not_fetched() {
    let hash = [7u8; 16];
    let mut content = hash.to_vec();
    content.extend_from_slice(b"payload");
    assert!(!needs_download(&hash, Some(&content)));
    assert!(!needs_download(&hash, Some(&hash)));
}

#[test]
fn file_is_fetched_when_missing_short_or_different() {
    let hash = [7u8; 16];
    assert!(needs_download(&hash, None));
    assert!(needs_download(&hash, Some(&hash[..15])));
    let mut content = hash.to_vec();
    content[15] = 8;
    content.extend_from_slice(b"payload");
    assert!(needs_download(&hash, Some(&content)));
    assert!(needs_download(&hash[..8], Some(&hash)));
}
