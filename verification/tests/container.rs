use soulframe_language_downloader::chunk::{parse_block, BlockHeader};
use soulframe_language_downloader::codec::accept_output;
use soulframe_language_downloader::{
    shcc_decompress_chunk, shcc_decompress_chunk_oodle, shcc_hash, shcc_unpack, FormatError,
    ShccData,
};

// Stands in for the block decompressor: the output is the input without its marker byte.
fn strip_marker(compressed: &[u8], _expected_len: usize) -> Option<Vec<u8>> {
    compressed.get(1..).map(|rest| rest.to_vec())
}

fn refuse(_compressed: &[u8], _expected_len: usize) -> Option<Vec<u8>> {
    None
}

fn stored_chunk(payload: &[u8]) -> Vec<u8> {
    let mut out = vec![0u8];
    out.extend_from_slice(&(payload.len() as u32).to_le_bytes());
    out.extend_from_slice(&(payload.len() as u32).to_le_bytes());
    out.extend_from_slice(payload);
    out
}

fn block(declared_out: u32, body: &[u8]) -> Vec<u8> {
    let compressed_size = body.len() as u32 + 1;
    let hi: u32 = 0x8000_0000 | (compressed_size << 2);
    let lo: u32 = (declared_out << 5) | 0x01;
    let mut out = Vec::new();
    out.extend_from_slice(&hi.to_be_bytes());
    out.extend_from_slice(&lo.to_be_bytes());
    out.push(0x8C);
    out.extend_from_slice(body);
    out
}

fn block_chunk(total: u32, blocks: &[Vec<u8>]) -> Vec<u8> {
    let mut out = vec![2u8];
    out.extend_from_slice(&total.to_le_bytes());
    out.extend_from_slice(&0u32.to_le_bytes());
    for b in blocks {
        out.extend_from_slice(b);
    }
    out
}

#[test]
fn stored_chunk_returns_payload_and_advances_by_its_length() {
    for n in [0usize, 1, 5, 300] {
        let payload: Vec<u8> = (0..n).map(|k| (k * 7) as u8).collect();
        let mut bin = vec![0xAA, 0xBB, 0xCC];
        bin.extend_from_slice(&stored_chunk(&payload));
        bin.extend_from_slice(&[1, 2, 3]);
        let r = shcc_decompress_chunk(&bin, 3, &refuse);
        assert_eq!(r, Ok((payload, 3 + 9 + n)));
    }
}

#[test]
fn stored_chunk_size_mismatch() {
    let mut bin = vec![0u8];
    bin.extend_from_slice(&3u32.to_le_bytes());
    bin.extend_from_slice(&4u32.to_le_bytes());
    bin.extend_from_slice(&[1, 2, 3, 4]);
    assert_eq!(shcc_decompress_chunk(&bin, 0, &strip_marker), Err(FormatError::SizeMismatch));
}

#[test]
fn stored_chunk_cut_off() {
    let mut bin = stored_chunk(&[1, 2, 3, 4]);
    bin.pop();
    assert_eq!(shcc_decompress_chunk(&bin, 0, &strip_marker), Err(FormatError::Truncated));
}

#[test]
fn chunk_header_cut_off() {
    assert_eq!(shcc_decompress_chunk(&[0u8; 8], 0, &strip_marker), Err(FormatError::Truncated));
    assert_eq!(shcc_decompress_chunk(&[0u8; 20], 12, &strip_marker), Err(FormatError::Truncated));
    assert_eq!(
        shcc_decompress_chunk(&[0u8; 20], usize::MAX, &strip_marker),
        Err(FormatError::Truncated)
    );
}

#[test]
fn unknown_chunk_type() {
    let mut bin = stored_chunk(&[1, 2]);
    bin[0] = 1;
    assert_eq!(
        shcc_decompress_chunk(&bin, 0, &strip_marker),
        Err(FormatError::UnknownChunkType(1))
    );
    bin[0] = 0xFF;
    assert_eq!(
        shcc_decompress_chunk(&bin, 0, &strip_marker),
        Err(FormatError::UnknownChunkType(0xFF))
    );
}

#[test]
fn parse_block_reads_packed_sizes() {
    let bin = block(0x00AB_CDEF, &[9, 9, 9]);
    assert_eq!(
        parse_block(&bin, 0),
        Ok(BlockHeader { compressed_size: 4, decompressed_size: 0x00AB_CDEF })
    );
    let header = [0x80u8, 0x00, 0x00, 0x04, 0x00, 0x00, 0x00, 0x61, 0x8C];
    assert_eq!(parse_block(&header, 0), Ok(BlockHeader { compressed_size: 1, decompressed_size: 3 }));
}

#[test]
fn block_header_byte_must_be_0x80() {
    let good = block(3, &[1, 2, 3]);
    assert!(parse_block(&good, 0).is_ok());
    for wrong in [0x00u8, 0x7F, 0x81, 0xFF] {
        let mut bin = good.clone();
        bin[0] = wrong;
        assert_eq!(parse_block(&bin, 0), Err(FormatError::InvalidBlockHeader));
        assert_eq!(
            shcc_decompress_chunk_oodle(&bin, 0, 3, &strip_marker),
            Err(FormatError::InvalidBlockHeader)
        );
    }
}

#[test]
fn block_footer_nibble_must_be_1() {
    let good = block(3, &[1, 2, 3]);
    for nibble in [0x0u8, 0x2, 0x9, 0xF] {
        let mut bin = good.clone();
        bin[7] = (bin[7] & 0xF0) | nibble;
        assert_eq!(parse_block(&bin, 0), Err(FormatError::InvalidBlockFooter));
        assert_eq!(
            shcc_decompress_chunk_oodle(&bin, 0, 3, &strip_marker),
            Err(FormatError::InvalidBlockFooter)
        );
    }
}

#[test]
fn block_marker_must_be_0x8c() {
    let mut bin = block(3, &[1, 2, 3]);
    bin[8] = 0x8D;
    assert_eq!(parse_block(&bin, 0), Err(FormatError::InvalidBlockMarker));
    let only_header = &block(3, &[1, 2, 3])[..8];
    assert_eq!(parse_block(only_header, 0), Err(FormatError::InvalidBlockMarker));
}

#[test]
fn block_cut_off() {
    let bin = block(3, &[1, 2, 3]);
    assert_eq!(parse_block(&bin[..7], 0), Err(FormatError::Truncated));
    assert_eq!(parse_block(&bin[..bin.len() - 1], 0), Err(FormatError::Truncated));
}

#[test]
fn block_chunk_concatenates_blocks() {
    let chunk = block_chunk(5, &[block(3, &[1, 2, 3]), block(2, &[4, 5])]);
    let mut bin = vec![0u8; 4];
    bin.extend_from_slice(&chunk);
    bin.extend_from_slice(&[0xEE; 6]);
    let end = 4 + chunk.len();
    assert_eq!(shcc_decompress_chunk(&bin, 4, &strip_marker), Ok((vec![1, 2, 3, 4, 5], end)));
}

#[test]
fn block_chunk_of_size_zero_reads_no_block() {
    let chunk = block_chunk(0, &[]);
    assert_eq!(shcc_decompress_chunk(&chunk, 0, &refuse), Ok((Vec::new(), 9)));
}

#[test]
fn block_chunk_runs_out_of_blocks() {
    let chunk = block_chunk(5, &[block(3, &[1, 2, 3])]);
    assert_eq!(shcc_decompress_chunk(&chunk, 0, &strip_marker), Err(FormatError::Truncated));
}

#[test]
fn block_output_of_wrong_length_is_a_size_mismatch() {
    let chunk = block_chunk(4, &[block(4, &[1, 2, 3])]);
    assert_eq!(shcc_decompress_chunk(&chunk, 0, &strip_marker), Err(FormatError::SizeMismatch));
    let chunk = block_chunk(3, &[block(3, &[1, 2, 3])]);
    assert_eq!(shcc_decompress_chunk(&chunk, 0, &refuse), Err(FormatError::SizeMismatch));
}

#[test]
fn accept_output_checks_the_length() {
    assert_eq!(accept_output(2, Some(vec![7, 8])), Ok(vec![7, 8]));
    assert_eq!(accept_output(0, Some(Vec::new())), Ok(Vec::new()));
    assert_eq!(accept_output(3, Some(vec![7, 8])), Err(FormatError::SizeMismatch));
    assert_eq!(accept_output(1, Some(vec![7, 8])), Err(FormatError::SizeMismatch));
    assert_eq!(accept_output(0, None), Err(FormatError::SizeMismatch));
}

#[test]
fn container_too_short() {
    assert!(matches!(shcc_unpack(&[0u8; 7], &strip_marker), Err(FormatError::Truncated)));
    assert!(matches!(shcc_unpack(&[0u8; 8], &strip_marker), Err(FormatError::Truncated)));
}

#[test]
fn container_with_first_chunk_only() {
    let mut bin = b"SHCC\x1f\0\0\0".to_vec();
    bin.extend_from_slice(&stored_chunk(b"primary"));
    let data = shcc_unpack(&bin, &strip_marker).unwrap();
    assert_eq!(data.h, b"primary".to_vec());
    assert_eq!(data.b, None);
    assert_eq!(data.b_raw, None);
}

#[test]
fn container_with_both_chunks_keeps_raw_payload() {
    let mut bin = b"SHCC\x1f\0\0\0".to_vec();
    bin.extend_from_slice(&stored_chunk(b"primary"));
    let b_start = bin.len();
    let payload: Vec<u8> = (0..40u8).collect();
    bin.extend_from_slice(&stored_chunk(&payload));
    let data = shcc_unpack(&bin, &strip_marker).unwrap();
    assert_eq!(data.h, b"primary".to_vec());
    assert_eq!(data.b, Some(payload.clone()));
    assert_eq!(data.b_raw, Some(bin[b_start + 9..bin.len() - 15].to_vec()));
    assert_eq!(data.b_raw, Some(payload[..25].to_vec()));
}

#[test]
fn container_with_short_second_chunk_has_no_raw_payload() {
    let mut bin = b"SHCC\x1f\0\0\0".to_vec();
    bin.extend_from_slice(&stored_chunk(b"primary"));
    bin.extend_from_slice(&stored_chunk(&[1, 2, 3]));
    let data = shcc_unpack(&bin, &strip_marker).unwrap();
    assert_eq!(data.b, Some(vec![1, 2, 3]));
    assert_eq!(data.b_raw, None);
}

#[test]
fn container_second_chunk_of_exactly_fifteen_bytes_has_empty_raw_payload() {
    let mut bin = vec![0u8; 8];
    bin.extend_from_slice(&stored_chunk(b"h"));
    bin.extend_from_slice(&stored_chunk(&[7u8; 15]));
    let data = shcc_unpack(&bin, &strip_marker).unwrap();
    assert_eq!(data.b, Some(vec![7u8; 15]));
    assert_eq!(data.b_raw, Some(Vec::new()));
}

#[test]
fn container_second_chunk_failure_is_not_fatal() {
    let mut bin = vec![0u8; 8];
    bin.extend_from_slice(&stored_chunk(b"primary"));
    bin.extend_from_slice(&[9, 9, 9, 9, 9, 9, 9, 9, 9, 9, 9, 9, 9, 9, 9, 9, 9, 9, 9, 9, 9, 9, 9, 9, 9]);
    let data = shcc_unpack(&bin, &strip_marker).unwrap();
    assert_eq!(data.h, b"primary".to_vec());
    assert_eq!(data.b, None);
    assert_eq!(data.b_raw, None);
}

#[test]
fn container_first_chunk_failure_is_fatal() {
    let mut bin = vec![0u8; 8];
    bin.extend_from_slice(&stored_chunk(b"primary"));
    bin[8] = 5;
    assert!(matches!(shcc_unpack(&bin, &strip_marker), Err(FormatError::UnknownChunkType(5))));
}

#[test]
fn container_with_block_compressed_chunks() {
    let mut bin = vec![0u8; 8];
    bin.extend_from_slice(&block_chunk(4, &[block(4, b"abcd")]));
    let b_start = bin.len();
    bin.extend_from_slice(&block_chunk(2, &[block(2, b"xy")]));
    bin.extend_from_slice(&[0u8; 15]);
    let data = shcc_unpack(&bin, &strip_marker).unwrap();
    assert_eq!(data.h, b"abcd".to_vec());
    assert_eq!(data.b, Some(b"xy".to_vec()));
    assert_eq!(data.b_raw, Some(bin[b_start + 9..bin.len() - 15].to_vec()));
    assert_eq!(data.b_raw.as_ref().map(|r| r.len()), Some(8 + 3));
}

#[test]
fn hash_covers_magic_and_first_chunk_after_its_hash_field() {
    let mut h: Vec<u8> = (0..16u8).collect();
    h.extend_from_slice(b"hello world");
    let data = ShccData { h, b: None, b_raw: None };
    assert_eq!(
        shcc_hash(&data),
        vec![28, 161, 179, 92, 139, 189, 61, 80, 131, 234, 103, 156, 169, 235, 160, 42]
    );
}

#[test]
fn hash_covers_raw_second_payload() {
    let mut h: Vec<u8> = vec![0xAB; 16];
    h.extend_from_slice(b"hello world");
    let data = ShccData { h, b: Some(b"ignored".to_vec()), b_raw: Some(b"RAW".to_vec()) };
    assert_eq!(
        shcc_hash(&data),
        vec![41, 235, 120, 31, 113, 56, 23, 213, 238, 189, 203, 148, 146, 239, 142, 245]
    );
}

#[test]
fn hash_of_short_first_chunk_is_hash_of_magic() {
    let magic_only = vec![9, 246, 4, 124, 2, 66, 1, 227, 193, 120, 170, 195, 194, 79, 180, 32];
    for len in [0usize, 5, 16] {
        let data = ShccData { h: vec![1u8; len], b: None, b_raw: None };
        assert_eq!(shcc_hash(&data), magic_only);
    }
}

#[test]
fn hash_is_deterministic_and_sensitive() {
    let mut h: Vec<u8> = vec![0u8; 16];
    h.extend_from_slice(b"some content");
    let data = ShccData { h: h.clone(), b: Some(vec![1]), b_raw: Some(vec![5, 6, 7]) };
    let again = ShccData { h: h.clone(), b: Some(vec![2, 3]), b_raw: Some(vec![5, 6, 7]) };
    let first = shcc_hash(&data);
    assert_eq!(first.len(), 16);
    assert_eq!(first, shcc_hash(&data));
    assert_eq!(first, shcc_hash(&again));
    for k in 16..h.len() {
        let mut changed = h.clone();
        changed[k] ^= 1;
        let other = ShccData { h: changed, b: Some(vec![1]), b_raw: Some(vec![5, 6, 7]) };
        assert_ne!(first, shcc_hash(&other));
    }
    let other = ShccData { h: h.clone(), b: Some(vec![1]), b_raw: Some(vec![5, 6, 8]) };
    assert_ne!(first, shcc_hash(&other));
    let mut field = h.clone();
    field[3] ^= 0xFF;
    let same = ShccData { h: field, b: Some(vec![1]), b_raw: Some(vec![5, 6, 7]) };
    assert_eq!(first, shcc_hash(&same));
}
