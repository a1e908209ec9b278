use soulframe_language_downloader::languages::{
    decode_label_text, label_bytes, parse_table_header, read_label, unpack_entries,
};
use soulframe_language_downloader::{languages_unpack, FormatError, LanguageTable};

// Stands in for the dictionary decompressor: the output is the dictionary
// followed by the input.
fn prepend_dict(compressed: &[u8], dict: &[u8], _expected_len: usize) -> Option<Vec<u8>> {
    let mut out = dict.to_vec();
    out.extend_from_slice(compressed);
    Some(out)
}

fn refuse(_compressed: &[u8], _dict: &[u8], _expected_len: usize) -> Option<Vec<u8>> {
    None
}

fn s4(bytes: &[u8]) -> Vec<u8> {
    let mut out = (bytes.len() as u32).to_le_bytes().to_vec();
    out.extend_from_slice(bytes);
    out
}

fn label(name: &[u8], offset: u32, size: u16, flags: u16) -> Vec<u8> {
    let mut out = s4(name);
    out.extend_from_slice(&offset.to_le_bytes());
    out.extend_from_slice(&size.to_le_bytes());
    out.extend_from_slice(&flags.to_le_bytes());
    out
}

fn path_entry(path: &[u8], chunk: &[u8], labels: &[Vec<u8>]) -> Vec<u8> {
    let mut out = s4(path);
    out.extend_from_slice(&s4(chunk));
    out.extend_from_slice(&(labels.len() as u32).to_le_bytes());
    for l in labels {
        out.extend_from_slice(l);
    }
    out
}

fn table(suffixes: &[&[u8]], dict: &[u8], entries: &[Vec<u8>]) -> Vec<u8> {
    let mut out = vec![0x11u8; 16];
    out.extend_from_slice(&0x14u32.to_le_bytes());
    out.extend_from_slice(&0x2Bu32.to_le_bytes());
    out.extend_from_slice(&0x01u32.to_le_bytes());
    out.extend_from_slice(&(suffixes.len() as u32).to_le_bytes());
    for s in suffixes {
        out.extend_from_slice(&s4(s));
    }
    out.extend_from_slice(&s4(dict));
    out.extend_from_slice(&(entries.len() as u32).to_le_bytes());
    for e in entries {
        out.extend_from_slice(e);
    }
    out
}

fn pair(key: &str, text: &str) -> (String, String) {
    (key.to_string(), text.to_string())
}

#[test]
fn plain_labels_are_the_chunk_bytes() {
    let bin = table(
        &[b"_en", b"_fr"],
        b"DICT",
        &[
            path_entry(b"/Lang/A", b"HelloWorld", &[label(b"/one", 0, 5, 0), label(b"/two", 5, 5, 0x1FF)]),
            path_entry(b"/Lang/B", b"xyz", &[label(b"/z", 2, 1, 0xFDFF)]),
        ],
    );
    let entries = unpack_entries(&bin, &refuse).unwrap();
    assert_eq!(
        entries,
        vec![pair("/Lang/A/one", "Hello"), pair("/Lang/A/two", "World"), pair("/Lang/B/z", "z")]
    );
}

#[test]
fn compressed_label_goes_through_the_decompressor_with_the_dictionary() {
    let chunk = [&[6u8][..], b"ab"].concat();
    let bin = table(&[], b"DICT", &[path_entry(b"/p", &chunk, &[label(b"/n", 0, 3, 0x200)])]);
    let entries = unpack_entries(&bin, &prepend_dict).unwrap();
    assert_eq!(entries, vec![pair("/p/n", "DICTab")]);
}

#[test]
fn compressed_label_with_two_byte_length_prefix() {
    let body = vec![b'q'; 196];
    let chunk = [&[0xC8u8, 0x01][..], &body[..]].concat();
    let bin = table(&[], b"DICT", &[path_entry(b"/p", &chunk, &[label(b"/n", 0, 198, 0x0200)])]);
    let entries = unpack_entries(&bin, &prepend_dict).unwrap();
    assert_eq!(entries.len(), 1);
    assert_eq!(entries[0].0, "/p/n");
    assert_eq!(entries[0].1.len(), 200);
    assert!(entries[0].1.starts_with("DICTqqq"));
}

#[test]
fn compressed_label_length_mismatch_is_a_size_mismatch() {
    let chunk = [&[7u8][..], b"ab"].concat();
    let bin = table(&[], b"DICT", &[path_entry(b"/p", &chunk, &[label(b"/n", 0, 3, 0x200)])]);
    assert_eq!(unpack_entries(&bin, &prepend_dict), Err(FormatError::SizeMismatch));
    let chunk = [&[6u8][..], b"ab"].concat();
    let bin = table(&[], b"DICT", &[path_entry(b"/p", &chunk, &[label(b"/n", 0, 3, 0x200)])]);
    assert_eq!(unpack_entries(&bin, &refuse), Err(FormatError::SizeMismatch));
}

#[test]
fn compressed_label_with_bad_length_prefix() {
    let chunk = [0x80u8, 0x80, 0x80, 0x80, 0x10, 1, 2];
    let bin = table(&[], b"", &[path_entry(b"/p", &chunk, &[label(b"/n", 0, 7, 0x200)])]);
    assert_eq!(
        unpack_entries(&bin, &prepend_dict),
        Err(FormatError::InvalidVarintTerminal(0x10))
    );
    let bin = table(&[], b"", &[path_entry(b"/p", &chunk, &[label(b"/n", 0, 0, 0x200)])]);
    assert_eq!(unpack_entries(&bin, &prepend_dict), Err(FormatError::Truncated));
}

#[test]
fn label_out_of_bounds_fails() {
    let bin = table(&[], b"", &[path_entry(b"/p", b"12345", &[label(b"/n", 3, 3, 0)])]);
    assert_eq!(unpack_entries(&bin, &prepend_dict), Err(FormatError::OutOfBounds));
    let bin = table(&[], b"", &[path_entry(b"/p", b"12345", &[label(b"/n", u32::MAX, u16::MAX, 0)])]);
    assert_eq!(unpack_entries(&bin, &prepend_dict), Err(FormatError::OutOfBounds));
    let bin = table(&[], b"", &[path_entry(b"/p", b"12345", &[label(b"/n", 6, 0, 0)])]);
    assert_eq!(unpack_entries(&bin, &prepend_dict), Err(FormatError::OutOfBounds));
}

#[test]
fn label_at_the_very_end_of_the_chunk() {
    let bin = table(
        &[],
        b"",
        &[path_entry(b"/p", b"12345", &[label(b"/n", 3, 2, 0), label(b"/e", 5, 0, 0)])],
    );
    assert_eq!(
        unpack_entries(&bin, &prepend_dict),
        Ok(vec![pair("/p/n", "45"), pair("/p/e", "")])
    );
}

#[test]
fn label_bytes_checks_bounds() {
    let chunk = b"0123456789";
    assert_eq!(label_bytes(chunk, 2, 3), Ok(&b"234"[..]));
    assert_eq!(label_bytes(chunk, 0, 10), Ok(&chunk[..]));
    assert_eq!(label_bytes(chunk, 10, 0), Ok(&b""[..]));
    assert_eq!(label_bytes(chunk, 8, 3), Err(FormatError::OutOfBounds));
    assert_eq!(label_bytes(chunk, 11, 0), Err(FormatError::OutOfBounds));
    assert_eq!(label_bytes(chunk, u32::MAX, 1), Err(FormatError::OutOfBounds));
}

#[test]
fn decode_label_text_plain_and_compressed() {
    assert_eq!(decode_label_text(b"verbatim", 0, b"D", &refuse), Ok(b"verbatim".to_vec()));
    assert_eq!(decode_label_text(b"verbatim", 0xFDFF, b"D", &refuse), Ok(b"verbatim".to_vec()));
    assert_eq!(decode_label_text(&[3, b'x', b'y'], 0x200, b"D", &prepend_dict), Ok(b"Dxy".to_vec()));
    assert_eq!(
        decode_label_text(&[4, b'x', b'y'], 0x200, b"D", &prepend_dict),
        Err(FormatError::SizeMismatch)
    );
    assert_eq!(decode_label_text(&[], 0x200, b"D", &prepend_dict), Err(FormatError::Truncated));
}

#[test]
fn read_label_reads_all_fields() {
    let mut bin = vec![0xAAu8];
    bin.extend_from_slice(&label(b"/name", 0x01020304, 0x0506, 0x0708));
    let (l, next) = read_label(&bin, 1).unwrap();
    assert_eq!(l.name, "/name");
    assert_eq!(l.offset, 0x01020304);
    assert_eq!(l.size, 0x0506);
    assert_eq!(l.flags, 0x0708);
    assert_eq!(next, bin.len());
    assert!(matches!(read_label(&bin[..bin.len() - 1], 1), Err(FormatError::Truncated)));
}

#[test]
fn header_gives_dictionary_and_entry_count() {
    let bin = table(&[b"_en", b"", b"_de"], b"DICTIONARY", &[]);
    let header = parse_table_header(&bin).unwrap();
    assert_eq!(header.dictionary, b"DICTIONARY".to_vec());
    assert_eq!(header.num_paths, 0);
    assert_eq!(header.entries_at, bin.len());
    assert_eq!(unpack_entries(&bin, &refuse), Ok(Vec::new()));
}

#[test]
fn wrong_magic_is_refused() {
    for at in [16usize, 20, 24] {
        let mut bin = table(&[], b"D", &[]);
        bin[at] ^= 0x40;
        assert_eq!(unpack_entries(&bin, &refuse), Err(FormatError::InvalidMagic));
    }
}

#[test]
fn cut_off_table_is_truncated() {
    let bin = table(
        &[b"_en"],
        b"DICT",
        &[path_entry(b"/p", b"12345", &[label(b"/n", 0, 5, 0)])],
    );
    assert!(unpack_entries(&bin, &refuse).is_ok());
    for len in 0..bin.len() {
        assert_eq!(unpack_entries(&bin[..len], &refuse), Err(FormatError::Truncated));
    }
}

#[test]
fn repeated_key_appears_twice_in_table_order() {
    let bin = table(
        &[],
        b"",
        &[
            path_entry(b"/p", b"ab", &[label(b"/n", 0, 1, 0)]),
            path_entry(b"/p", b"ab", &[label(b"/n", 1, 1, 0)]),
        ],
    );
    assert_eq!(unpack_entries(&bin, &refuse), Ok(vec![pair("/p/n", "a"), pair("/p/n", "b")]));
}

#[test]
fn invalid_utf8_in_text_is_replaced() {
    let bin = table(&[], b"", &[path_entry(b"/p", &[b'a', 0xFF, b'b'], &[label(b"/n", 0, 3, 0)])]);
    assert_eq!(unpack_entries(&bin, &refuse), Ok(vec![pair("/p/n", "a\u{FFFD}b")]));
}

fn text_of<'a>(table: &'a LanguageTable, key: &str) -> Option<&'a str> {
    table.get(key).map(|t| t.as_str())
}

#[test]
fn table_maps_path_and_name_to_text() {
    let bin = table(
        &[b"_en"],
        b"DICT",
        &[
            path_entry(b"/Lang/B", b"xyz", &[label(b"/z", 2, 1, 0)]),
            path_entry(b"/Lang/A", &[b'A', 5, b'c'], &[label(b"/one", 0, 1, 0), label(b"/two", 1, 2, 0x200)]),
        ],
    );
    let t = languages_unpack(&bin, &prepend_dict).ok().unwrap();
    assert_eq!(t.len(), 3);
    assert!(!t.is_empty());
    assert_eq!(text_of(&t, "/Lang/A/one"), Some("A"));
    assert_eq!(text_of(&t, "/Lang/A/two"), Some("DICTc"));
    assert_eq!(text_of(&t, "/Lang/B/z"), Some("z"));
    assert_eq!(text_of(&t, "/Lang/A"), None);
    assert_eq!(text_of(&t, "/Lang/A/"), None);
    assert_eq!(t.keys(), &vec!["/Lang/B/z", "/Lang/A/one", "/Lang/A/two"]);
}

#[test]
fn table_keeps_the_last_text_of_a_repeated_key() {
    let bin = table(
        &[],
        b"",
        &[
            path_entry(b"/p", b"ab", &[label(b"/n", 0, 1, 0), label(b"/m", 0, 2, 0)]),
            path_entry(b"/p", b"ab", &[label(b"/n", 1, 1, 0)]),
        ],
    );
    let t = languages_unpack(&bin, &refuse).ok().unwrap();
    assert_eq!(t.len(), 2);
    assert_eq!(text_of(&t, "/p/n"), Some("b"));
    assert_eq!(text_of(&t, "/p/m"), Some("ab"));
    assert_eq!(t.keys(), &vec!["/p/n", "/p/m"]);
}

#[test]
fn table_errors_are_those_of_the_entries() {
    let bin = table(&[], b"", &[path_entry(b"/p", b"12345", &[label(b"/n", 3, 3, 0)])]);
    assert_eq!(languages_unpack(&bin, &refuse).err(), Some(FormatError::OutOfBounds));
    let chunk = [&[7u8][..], b"ab"].concat();
    let bin = table(&[], b"DICT", &[path_entry(b"/p", &chunk, &[label(b"/n", 0, 3, 0x200)])]);
    assert_eq!(languages_unpack(&bin, &prepend_dict).err(), Some(FormatError::SizeMismatch));
    let mut bin = table(&[], b"D", &[]);
    bin[16] = 0x15;
    assert_eq!(languages_unpack(&bin, &refuse).err(), Some(FormatError::InvalidMagic));
    assert_eq!(languages_unpack(&bin[..27], &refuse).err(), Some(FormatError::Truncated));
}

#[test]
fn empty_table() {
    let bin = table(&[], b"", &[]);
    let t = languages_unpack(&bin, &refuse).ok().unwrap();
    assert!(t.is_empty());
    assert_eq!(t.len(), 0);
    assert!(t.keys().is_empty());
}

#[test]
fn language_table_built_entry_by_entry() {
    let t = LanguageTable::new()
        .with_entry("b".to_string(), "1".to_string())
        .with_entry("a".to_string(), "2".to_string())
        .with_entry("b".to_string(), "3".to_string());
    assert_eq!(t.keys(), &vec!["b", "a"]);
    assert_eq!(text_of(&t, "b"), Some("3"));
    assert_eq!(text_of(&t, "a"), Some("2"));
    let same = LanguageTable::from_entries(&vec![pair("b", "1"), pair("a", "2"), pair("b", "3")]);
    assert_eq!(same.keys(), t.keys());
    assert_eq!(text_of(&same, "b"), Some("3"));
}

#[test]
fn sorted_keys_are_in_byte_order() {
    let t = LanguageTable::from_entries(&vec![
        pair("/b", "1"),
        pair("/a/z", "2"),
        pair("/B", "3"),
        pair("/a", "4"),
        pair("/\u{e9}", "5"),
        pair("/b", "6"),
        pair("", "7"),
    ]);
    assert_eq!(t.keys(), &vec!["/b", "/a/z", "/B", "/a", "/\u{e9}", ""]);
    assert_eq!(t.sorted_keys(), vec!["", "/B", "/a", "/a/z", "/b", "/\u{e9}"]);
    assert!(LanguageTable::new().sorted_keys().is_empty());
}
