use vstd::prelude::*;
use vstd::string::StringExecFns;
use crate::codec::{accept_output, accepted, dict_answer, dict_total, opt_bytes, res_bytes};
use crate::error::FormatError;
use crate::reader::{has_bytes, le_u16, le_u32, read_s4, read_u16_le, read_u32_le, s4_at};
use crate::table::{key_order, pairs, string_map, LanguageTable};
use crate::text::{lossy_string, utf8_lossy};
use crate::varint::{dyn_u32_at, unpack_u32_dyn_le};

verus! {

/// Offset of the three magic constants: a string table opens with a
/// 16-byte hash field that is not read.
pub const TABLE_HASH_LEN: usize = 16;

/// Flag bit of a label whose bytes are dictionary-compressed.
pub const LABEL_COMPRESSED: u16 = 0x200;

/// What stands before the path entries of a string table.
#[derive(Debug)]
pub struct TableHeader {
    /// The dictionary that all compressed labels of the table share.
    pub dictionary: Vec<u8>,
    /// Number of path entries that follow.
    pub num_paths: u32,
    /// Offset of the first path entry.
    pub entries_at: usize,
}

/// A table header as plain values.
pub struct TableHeaderModel {
    pub dictionary: Seq<u8>,
    pub num_paths: int,
    pub entries_at: int,
}

impl View for TableHeader {
    type V = TableHeaderModel;

    open spec fn view(&self) -> TableHeaderModel {
        TableHeaderModel {
            dictionary: self.dictionary@,
            num_paths: self.num_paths as int,
            entries_at: self.entries_at as int,
        }
    }
}

/// One label record: a name and where its text lies in the chunk of its path entry.
#[derive(Debug)]
pub struct Label {
    pub name: String,
    pub offset: u32,
    pub size: u16,
    pub flags: u16,
}

/// A label record as plain values.
pub struct LabelModel {
    pub name: Seq<char>,
    pub offset: int,
    pub size: int,
    pub flags: u16,
}

impl View for Label {
    type V = LabelModel;

    open spec fn view(&self) -> LabelModel {
        LabelModel {
            name: self.name@,
            offset: self.offset as int,
            size: self.size as int,
            flags: self.flags,
        }
    }
}

/// The offset after `n` length-prefixed strings that start at `at`, if all
/// of them lie in the buffer.
pub open spec fn skip_strings(bytes: Seq<u8>, at: int, n: int) -> Option<int>
    decreases n,
{
    if n <= 0 {
        Some(at)
    } else {
        match s4_at(bytes, at) {
            None => None,
            Some(blob) => skip_strings(bytes, at + 4 + blob.len(), n - 1),
        }
    }
}

/// The part of a table header that follows the suffix strings, which end at `at`.
pub open spec fn header_tail(bytes: Seq<u8>, at: int) -> Result<TableHeaderModel, FormatError> {
    match s4_at(bytes, at) {
        None => Err(FormatError::Truncated),
        Some(dictionary) => if !has_bytes(bytes, at + 4 + dictionary.len(), 4) {
            Err(FormatError::Truncated)
        } else {
            Ok(
                TableHeaderModel {
                    dictionary,
                    num_paths: le_u32(bytes, at + 4 + dictionary.len()),
                    entries_at: at + 4 + dictionary.len() + 4,
                },
            )
        },
    }
}

/// The header of the string table `bytes`: after the 16-byte hash field the
/// constants `0x14`, `0x2B`, `0x01`, then a count of suffix strings and
/// the strings, which are passed over, the dictionary, and the number of
/// path entries.
pub open spec fn table_header(bytes: Seq<u8>) -> Result<TableHeaderModel, FormatError> {
    if !has_bytes(bytes, 16, 12) {
        Err(FormatError::Truncated)
    } else if le_u32(bytes, 16) != 0x14 || le_u32(bytes, 20) != 0x2B || le_u32(bytes, 24) != 0x01 {
        Err(FormatError::InvalidMagic)
    } else if !has_bytes(bytes, 28, 4) {
        Err(FormatError::Truncated)
    } else {
        match skip_strings(bytes, 32, le_u32(bytes, 28)) {
            None => Err(FormatError::Truncated),
            Some(at) => header_tail(bytes, at),
        }
    }
}

/// The label record at `at` and the offset after it: a length-prefixed
/// name, then offset (`u32`), size (`u16`) and flags (`u16`).
pub open spec fn label_at(bytes: Seq<u8>, at: int) -> Result<(LabelModel, int), FormatError> {
    match s4_at(bytes, at) {
        None => Err(FormatError::Truncated),
        Some(name) => {
            let fields = at + 4 + name.len();
            if !has_bytes(bytes, fields, 8) {
                Err(FormatError::Truncated)
            } else {
                Ok(
                    (
                        LabelModel {
                            name: utf8_lossy(name),
                            offset: le_u32(bytes, fields),
                            size: le_u16(bytes, fields + 4),
                            flags: le_u16(bytes, fields + 6) as u16,
                        },
                        fields + 8,
                    ),
                )
            }
        },
    }
}

/// The bytes of a label within its chunk: `size` bytes from `offset`, which
/// must all lie in the chunk.
pub open spec fn label_range(chunk: Seq<u8>, offset: int, size: int) -> Result<
    Seq<u8>,
    FormatError,
> {
    if offset + size > chunk.len() {
        Err(FormatError::OutOfBounds)
    } else {
        Ok(chunk.subrange(offset, offset + size))
    }
}

/// Whether a label's flags mark its bytes as dictionary-compressed.
pub open spec fn is_compressed(flags: u16) -> bool {
    flags & 0x200 != 0
}

/// `out` is a possible outcome of turning a label's bytes into its text
/// bytes. Uncompressed bytes are the text. Compressed bytes start with the
/// length of the text as a dynamic-width integer; the rest goes to the
/// dictionary decompressor `f`, whose answer counts only if it has that length.
pub open spec fn label_text_outcome<F: Fn(&[u8], &[u8], usize) -> Option<Vec<u8>>>(
    f: &F,
    raw: Seq<u8>,
    flags: u16,
    dict: Seq<u8>,
    out: Result<Seq<u8>, FormatError>,
) -> bool {
    if !is_compressed(flags) {
        out == Ok::<Seq<u8>, FormatError>(raw)
    } else {
        match dyn_u32_at(raw, 0) {
            Err(e) => out == Err::<Seq<u8>, FormatError>(e),
            Ok((n, used)) => exists|answer: Option<Seq<u8>>| #[trigger]
                dict_answer(f, raw.subrange(used, raw.len() as int), dict, n as usize, answer)
                    && out == accepted(n, answer),
        }
    }
}

/// `out` is a possible outcome of decoding `n` label records from `at` on
/// for the path entry with path `path` and chunk `chunk`: the entries in
/// `have` followed by one entry per label, keyed by the path followed
/// directly by the label's name, and the offset after the last record.
pub open spec fn labels_outcome<F: Fn(&[u8], &[u8], usize) -> Option<Vec<u8>>>(
    f: &F,
    bytes: Seq<u8>,
    dict: Seq<u8>,
    path: Seq<char>,
    chunk: Seq<u8>,
    at: int,
    n: int,
    have: Seq<(Seq<char>, Seq<char>)>,
    out: Result<(Seq<(Seq<char>, Seq<char>)>, int), FormatError>,
) -> bool
    decreases n,
{
    if n <= 0 {
        out == Ok::<(Seq<(Seq<char>, Seq<char>)>, int), FormatError>((have, at))
    } else {
        match label_at(bytes, at) {
            Err(e) => out == Err::<(Seq<(Seq<char>, Seq<char>)>, int), FormatError>(e),
            Ok((label, next)) => match label_range(chunk, label.offset, label.size) {
                Err(e) => out == Err::<(Seq<(Seq<char>, Seq<char>)>, int), FormatError>(e),
                Ok(raw) => exists|text: Result<Seq<u8>, FormatError>| #[trigger]
                    label_text_outcome(f, raw, label.flags, dict, text) && match text {
                        Err(e) => out == Err::<(Seq<(Seq<char>, Seq<char>)>, int), FormatError>(e),
                        Ok(t) => labels_outcome(
                            f,
                            bytes,
                            dict,
                            path,
                            chunk,
                            next,
                            n - 1,
                            have.push((path + label.name, utf8_lossy(t))),
                            out,
                        ),
                    },
            },
        }
    }
}

/// Where the label records of the path entry at `at` start, with the
/// entry's path, chunk and label count: a length-prefixed path, a
/// length-prefixed chunk, a `u32` count.
pub open spec fn path_entry_at(bytes: Seq<u8>, at: int) -> Result<
    (Seq<char>, Seq<u8>, int, int),
    FormatError,
> {
    match s4_at(bytes, at) {
        None => Err(FormatError::Truncated),
        Some(path) => match s4_at(bytes, at + 4 + path.len()) {
            None => Err(FormatError::Truncated),
            Some(chunk) => {
                let count_at = at + 4 + path.len() + 4 + chunk.len();
                if !has_bytes(bytes, count_at, 4) {
                    Err(FormatError::Truncated)
                } else {
                    Ok((utf8_lossy(path), chunk, le_u32(bytes, count_at), count_at + 4))
                }
            },
        },
    }
}

/// `out` is a possible outcome of decoding `n` path entries from `at` on,
/// with the entries in `have` decoded before them.
pub open spec fn paths_outcome<F: Fn(&[u8], &[u8], usize) -> Option<Vec<u8>>>(
    f: &F,
    bytes: Seq<u8>,
    dict: Seq<u8>,
    at: int,
    n: int,
    have: Seq<(Seq<char>, Seq<char>)>,
    out: Result<Seq<(Seq<char>, Seq<char>)>, FormatError>,
) -> bool
    decreases n,
{
    if n <= 0 {
        out == Ok::<Seq<(Seq<char>, Seq<char>)>, FormatError>(have)
    } else {
        match path_entry_at(bytes, at) {
            Err(e) => out == Err::<Seq<(Seq<char>, Seq<char>)>, FormatError>(e),
            Ok((path, chunk, count, labels_at)) => exists|
                inner: Result<(Seq<(Seq<char>, Seq<char>)>, int), FormatError>,
            | #[trigger]
                labels_outcome(f, bytes, dict, path, chunk, labels_at, count, have, inner)
                    && match inner {
                    Err(e) => out == Err::<Seq<(Seq<char>, Seq<char>)>, FormatError>(e),
                    Ok((more, next)) => paths_outcome(f, bytes, dict, next, n - 1, more, out),
                },
        }
    }
}

/// `out` is a possible outcome of decoding the string table `bytes`: its
/// entries in the order of the table, each a key and a text. A key that
/// occurs again later stands for the later text.
pub open spec fn table_outcome<F: Fn(&[u8], &[u8], usize) -> Option<Vec<u8>>>(
    f: &F,
    bytes: Seq<u8>,
    out: Result<Seq<(Seq<char>, Seq<char>)>, FormatError>,
) -> bool {
    match table_header(bytes) {
        Err(e) => out == Err::<Seq<(Seq<char>, Seq<char>)>, FormatError>(e),
        Ok(header) => paths_outcome(
            f,
            bytes,
            header.dictionary,
            header.entries_at,
            header.num_paths,
            Seq::empty(),
            out,
        ),
    }
}

/// Entries, or the error, as keys and texts.
pub open spec fn table_view(r: Result<Vec<(String, String)>, FormatError>) -> Result<
    Seq<(Seq<char>, Seq<char>)>,
    FormatError,
> {
    match r {
        Ok(entries) => Ok(pairs(entries@)),
        Err(e) => Err(e),
    }
}

/// Entries and the offset after them, or the error, as keys and texts.
pub open spec fn labels_view(r: Result<(Vec<(String, String)>, usize), FormatError>) -> Result<
    (Seq<(Seq<char>, Seq<char>)>, int),
    FormatError,
> {
    match r {
        Ok((entries, next)) => Ok((pairs(entries@), next as int)),
        Err(e) => Err(e),
    }
}

/// Passes over `n` length-prefixed strings that start at `bin[at]` and
/// returns the offset after them.
pub fn skip_suffixes(bin: &[u8], at: usize, n: u32) -> (r: Result<usize, FormatError>)
    ensures
        match skip_strings(bin@, at as int, n as int) {
            Some(next) => r == Ok::<usize, FormatError>(next as usize) && at <= next <= usize::MAX,
            None => r == Err::<usize, FormatError>(FormatError::Truncated),
        },
{
    let mut i: usize = at;
    let mut left: u32 = n;
    while left > 0
        invariant
            at <= i,
            skip_strings(bin@, i as int, left as int) == skip_strings(bin@, at as int, n as int),
        decreases left,
    {
        let _ = read_s4(bin, &mut i)?;
        left = left - 1;
    }
    Ok(i)
}

/// Reads the header of a string table.
pub fn parse_table_header(bin: &[u8]) -> (r: Result<TableHeader, FormatError>)
    ensures
        match table_header(bin@) {
            Ok(header) => r matches Ok(read) && read@ == header,
            Err(e) => r == Err::<TableHeader, FormatError>(e),
        },
{
    let mut i: usize = TABLE_HASH_LEN;
    let magic1 = read_u32_le(bin, &mut i)?;
    let magic2 = read_u32_le(bin, &mut i)?;
    let magic3 = read_u32_le(bin, &mut i)?;
    if magic1 != 0x14 || magic2 != 0x2B || magic3 != 0x01 {
        return Err(FormatError::InvalidMagic);
    }
    let num_suffixes: u32 = read_u32_le(bin, &mut i)?;
    let mut i: usize = skip_suffixes(bin, i, num_suffixes)?;
    let dictionary = read_s4(bin, &mut i)?;
    let num_paths = read_u32_le(bin, &mut i)?;
    Ok(TableHeader { dictionary, num_paths, entries_at: i })
}

/// Reads one label record at `bin[at]` and returns it with the offset after it.
pub fn read_label(bin: &[u8], at: usize) -> (r: Result<(Label, usize), FormatError>)
    ensures
        match label_at(bin@, at as int) {
            Ok((label, next)) => r matches Ok(read) && read.0@ == label && read.1 == next,
            Err(e) => r matches Err(x) && x == e,
        },
{
    let mut i: usize = at;
    let name_bytes = read_s4(bin, &mut i)?;
    let name = lossy_string(name_bytes.as_slice());
    let offset = read_u32_le(bin, &mut i)?;
    let size = read_u16_le(bin, &mut i)?;
    let flags = read_u16_le(bin, &mut i)?;
    Ok((Label { name, offset, size, flags }, i))
}

/// The bytes of a label within its chunk, or an out-of-bounds error if
/// `offset + size` lies beyond the chunk's end.
pub fn label_bytes(chunk: &[u8], offset: u32, size: u16) -> (r: Result<&[u8], FormatError>)
    ensures
        match label_range(chunk@, offset as int, size as int) {
            Ok(raw) => r matches Ok(bytes) && bytes@ == raw,
            Err(e) => r matches Err(x) && x == e,
        },
{
    let from: usize = offset as usize;
    let len: usize = size as usize;
    if from > chunk.len() || len > chunk.len() - from {
        return Err(FormatError::OutOfBounds);
    }
    Ok(vstd::slice::slice_subrange(chunk, from, from + len))
}

/// Turns a label's bytes into the bytes of its text, expanding them with
/// `zstd` and the table's dictionary where the flags say so.
pub fn decode_label_text<F: Fn(&[u8], &[u8], usize) -> Option<Vec<u8>>>(
    raw: &[u8],
    flags: u16,
    dict: &[u8],
    zstd: &F,
) -> (r: Result<Vec<u8>, FormatError>)
    requires
        dict_total(zstd),
    ensures
        label_text_outcome(zstd, raw@, flags, dict@, res_bytes(r)),
        !is_compressed(flags) ==> res_bytes(r) == Ok::<Seq<u8>, FormatError>(raw@),
{
    if (flags & LABEL_COMPRESSED) == 0 {
        return Ok(vstd::slice::slice_to_vec(raw));
    }
    let (expected, used) = unpack_u32_dyn_le(raw, 0)?;
    let compressed = vstd::slice::slice_subrange(raw, used, raw.len());
    let answer = zstd(compressed, dict, expected as usize);
    assert(dict_answer(zstd, compressed@, dict@, expected as usize, opt_bytes(answer)));
    accept_output(expected as usize, answer)
}

/// Decodes `count` label records of one path entry, starting at `bin[at]`,
/// and appends one entry per label to `entries`.
pub fn decode_labels<F: Fn(&[u8], &[u8], usize) -> Option<Vec<u8>>>(
    bin: &[u8],
    at: usize,
    count: u32,
    dict: &[u8],
    path: &String,
    chunk: &[u8],
    have: Vec<(String, String)>,
    zstd: &F,
) -> (r: Result<(Vec<(String, String)>, usize), FormatError>)
    requires
        dict_total(zstd),
    ensures
        labels_outcome(
            zstd,
            bin@,
            dict@,
            path@,
            chunk@,
            at as int,
            count as int,
            pairs(have@),
            labels_view(r),
        ),
{
    let ghost start = pairs(have@);
    let mut entries = have;
    let mut i: usize = at;
    let mut left: u32 = count;
    while left > 0
        invariant
            dict_total(zstd),
            start == pairs(have@),
            forall|out: Result<(Seq<(Seq<char>, Seq<char>)>, int), FormatError>|
                #[trigger] labels_outcome(
                    zstd,
                    bin@,
                    dict@,
                    path@,
                    chunk@,
                    i as int,
                    left as int,
                    pairs(entries@),
                    out,
                ) ==> labels_outcome(
                    zstd,
                    bin@,
                    dict@,
                    path@,
                    chunk@,
                    at as int,
                    count as int,
                    start,
                    out,
                ),
        decreases left,
    {
        let ghost here = pairs(entries@);
        let (label, next) = match read_label(bin, i) {
            Ok(pair) => pair,
            Err(e) => {
                assert(labels_outcome(
                    zstd,
                    bin@,
                    dict@,
                    path@,
                    chunk@,
                    i as int,
                    left as int,
                    here,
                    Err(e),
                ));
                return Err(e);
            },
        };
        let raw = match label_bytes(chunk, label.offset, label.size) {
            Ok(raw) => raw,
            Err(e) => {
                assert(labels_outcome(
                    zstd,
                    bin@,
                    dict@,
                    path@,
                    chunk@,
                    i as int,
                    left as int,
                    here,
                    Err(e),
                ));
                return Err(e);
            },
        };
        let decoded = decode_label_text(raw, label.flags, dict, zstd);
        let ghost seen = res_bytes(decoded);
        let ghost left_before = left as int;
        let ghost at_before = i as int;
        assert(label_text_outcome(zstd, raw@, label@.flags, dict@, seen));
        let text_bytes = match decoded {
            Ok(bytes) => bytes,
            Err(e) => {
                assert(labels_outcome(
                    zstd,
                    bin@,
                    dict@,
                    path@,
                    chunk@,
                    i as int,
                    left as int,
                    here,
                    Err(e),
                ));
                return Err(e);
            },
        };
        let mut key = path.clone();
        key.append(label.name.as_str());
        let text = lossy_string(text_bytes.as_slice());
        let ghost before = pairs(entries@);
        let ghost name = label@.name;
        entries.push((key, text));
        assert(pairs(entries@) =~= before.push((path@ + name, utf8_lossy(text_bytes@))));
        i = next;
        left = left - 1;
        assert forall|out: Result<(Seq<(Seq<char>, Seq<char>)>, int), FormatError>|
            #[trigger] labels_outcome(
                zstd,
                bin@,
                dict@,
                path@,
                chunk@,
                i as int,
                left as int,
                pairs(entries@),
                out,
            ) implies labels_outcome(
            zstd,
            bin@,
            dict@,
            path@,
            chunk@,
            at_before,
            left_before,
            before,
            out,
        ) by {
            assert(left as int == left_before - 1);
            assert(label_text_outcome(zstd, raw@, label@.flags, dict@, seen));
        }
    }
    assert(labels_outcome(
        zstd,
        bin@,
        dict@,
        path@,
        chunk@,
        i as int,
        0,
        pairs(entries@),
        Ok((pairs(entries@), i as int)),
    ));
    Ok((entries, i))
}

/// Reads the head of the path entry at `bin[at]`: its path, its chunk, the
/// number of its labels and the offset of the first label record.
pub fn read_path_entry(bin: &[u8], at: usize) -> (r: Result<
    (String, Vec<u8>, u32, usize),
    FormatError,
>)
    ensures
        match path_entry_at(bin@, at as int) {
            Ok((path, chunk, count, labels_at)) => r matches Ok(entry) && entry.0@ == path
                && entry.1@ == chunk && entry.2 == count && entry.3 == labels_at,
            Err(e) => r matches Err(x) && x == e,
        },
{
    let mut i: usize = at;
    let path_bytes = read_s4(bin, &mut i)?;
    let path = lossy_string(path_bytes.as_slice());
    let chunk = read_s4(bin, &mut i)?;
    let num_labels = read_u32_le(bin, &mut i)?;
    Ok((path, chunk, num_labels, i))
}

/// Decodes the path entries of a string table whose header was read.
pub fn decode_paths<F: Fn(&[u8], &[u8], usize) -> Option<Vec<u8>>>(
    bin: &[u8],
    header: &TableHeader,
    zstd: &F,
) -> (r: Result<Vec<(String, String)>, FormatError>)
    requires
        dict_total(zstd),
    ensures
        paths_outcome(
            zstd,
            bin@,
            header@.dictionary,
            header@.entries_at,
            header@.num_paths,
            Seq::empty(),
            table_view(r),
        ),
{
    let mut entries: Vec<(String, String)> = Vec::new();
    assert(pairs(entries@) =~= Seq::<(Seq<char>, Seq<char>)>::empty());
    let dict = header.dictionary.as_slice();
    let mut i: usize = header.entries_at;
    let mut left: u32 = header.num_paths;
    while left > 0
        invariant
            dict_total(zstd),
            dict@ == header@.dictionary,
            forall|out: Result<Seq<(Seq<char>, Seq<char>)>, FormatError>|
                #[trigger] paths_outcome(
                    zstd,
                    bin@,
                    dict@,
                    i as int,
                    left as int,
                    pairs(entries@),
                    out,
                ) ==> paths_outcome(
                    zstd,
                    bin@,
                    dict@,
                    header@.entries_at,
                    header@.num_paths,
                    Seq::empty(),
                    out,
                ),
        decreases left,
    {
        let ghost entry_at = i as int;
        let ghost before = pairs(entries@);
        let (path, chunk, num_labels, labels_at) = match read_path_entry(bin, i) {
            Ok(entry) => entry,
            Err(e) => {
                assert(paths_outcome(zstd, bin@, dict@, entry_at, left as int, before, Err(e)));
                return Err(e);
            },
        };
        i = labels_at;
        let decoded = decode_labels(
            bin,
            i,
            num_labels,
            dict,
            &path,
            chunk.as_slice(),
            entries,
            zstd,
        );
        let ghost seen = labels_view(decoded);
        assert(labels_outcome(
            zstd,
            bin@,
            dict@,
            path@,
            chunk@,
            i as int,
            num_labels as int,
            before,
            seen,
        ));
        let (all, next) = match decoded {
            Ok(pair) => pair,
            Err(e) => {
                assert(paths_outcome(zstd, bin@, dict@, entry_at, left as int, before, Err(e)));
                return Err(e);
            },
        };
        let ghost left_before = left as int;
        entries = all;
        i = next;
        left = left - 1;
        assert forall|out: Result<Seq<(Seq<char>, Seq<char>)>, FormatError>|
            #[trigger] paths_outcome(
                zstd,
                bin@,
                dict@,
                i as int,
                left as int,
                pairs(entries@),
                out,
            ) implies paths_outcome(zstd, bin@, dict@, entry_at, left_before, before, out) by {
            assert(left as int == left_before - 1);
            assert(labels_outcome(
                zstd,
                bin@,
                dict@,
                path@,
                chunk@,
                labels_at as int,
                num_labels as int,
                before,
                seen,
            ));
        }
    }
    assert(paths_outcome(
        zstd,
        bin@,
        dict@,
        i as int,
        0,
        pairs(entries@),
        Ok(pairs(entries@)),
    ));
    Ok(entries)
}

/// Decodes a string table into its entries, in the order of the table.
pub fn unpack_entries<F: Fn(&[u8], &[u8], usize) -> Option<Vec<u8>>>(bin: &[u8], zstd: &F) -> (r:
    Result<Vec<(String, String)>, FormatError>)
    requires
        dict_total(zstd),
    ensures
        table_outcome(zstd, bin@, table_view(r)),
{
    let header = parse_table_header(bin)?;
    decode_paths(bin, &header, zstd)
}

/// `out` is a possible outcome of decoding the string table `bytes` into a
/// map from keys to texts with the list of its keys: the map and the keys
/// of the entries of a possible outcome of [`table_outcome`], or its error.
pub open spec fn unpack_outcome<F: Fn(&[u8], &[u8], usize) -> Option<Vec<u8>>>(
    f: &F,
    bytes: Seq<u8>,
    out: Result<(Map<Seq<char>, Seq<char>>, Seq<Seq<char>>), FormatError>,
) -> bool {
    exists|entries: Result<Seq<(Seq<char>, Seq<char>)>, FormatError>| #[trigger]
        table_outcome(f, bytes, entries) && out == (match entries {
            Ok(list) => Ok((string_map(list), key_order(list))),
            Err(e) => Err(e),
        })
}

/// A table, or the error, as a map and its keys.
pub open spec fn unpack_view(r: Result<LanguageTable, FormatError>) -> Result<
    (Map<Seq<char>, Seq<char>>, Seq<Seq<char>>),
    FormatError,
> {
    match r {
        Ok(table) => Ok((table@, table.key_list())),
        Err(e) => Err(e),
    }
}

/// Decodes a string table into a map from keys to texts. A key is a path
/// followed directly by a label's name; where a key occurs more than once,
/// the last text stands. `zstd` expands compressed label bytes, seeded
/// with the table's dictionary, to a given length; what it returns is
/// checked against that length. Any error ends the decode, and nothing is
/// returned of what was decoded before it.
pub fn languages_unpack<F: Fn(&[u8], &[u8], usize) -> Option<Vec<u8>>>(bin: &[u8], zstd: &F) -> (r:
    Result<LanguageTable, FormatError>)
    requires
        dict_total(zstd),
    ensures
        unpack_outcome(zstd, bin@, unpack_view(r)),
{
    let decoded = unpack_entries(bin, zstd);
    let ghost seen = table_view(decoded);
    assert(table_outcome(zstd, bin@, seen));
    match decoded {
        Ok(entries) => Ok(LanguageTable::from_entries(&entries)),
        Err(e) => Err(e),
    }
}

/// The bytes of a label whose flags lack the compression bit are its text,
/// whatever the decompressor is.
pub proof fn lemma_plain_label_is_verbatim<F: Fn(&[u8], &[u8], usize) -> Option<Vec<u8>>>(
    f: &F,
    raw: Seq<u8>,
    flags: u16,
    dict: Seq<u8>,
    out: Result<Seq<u8>, FormatError>,
)
    requires
        flags & 0x200 == 0,
    ensures
        label_text_outcome(f, raw, flags, dict, out) <==> out == Ok::<Seq<u8>, FormatError>(raw),
{
}

/// A compressed label whose bytes do not expand to the length that they
/// declare is a size mismatch: where the decompressor never answers with
/// that many bytes, that error is the only outcome.
pub proof fn lemma_wrong_length_is_a_size_mismatch<F: Fn(&[u8], &[u8], usize) -> Option<Vec<u8>>>(
    f: &F,
    raw: Seq<u8>,
    flags: u16,
    dict: Seq<u8>,
    out: Result<Seq<u8>, FormatError>,
)
    requires
        flags & 0x200 != 0,
        dyn_u32_at(raw, 0) is Ok,
        forall|answer: Option<Seq<u8>>| #[trigger]
            dict_answer(
                f,
                raw.subrange(dyn_u32_at(raw, 0).unwrap().1, raw.len() as int),
                dict,
                dyn_u32_at(raw, 0).unwrap().0 as usize,
                answer,
            ) ==> !(answer matches Some(bytes) && bytes.len() == dyn_u32_at(raw, 0).unwrap().0),
        label_text_outcome(f, raw, flags, dict, out),
    ensures
        out == Err::<Seq<u8>, FormatError>(FormatError::SizeMismatch),
{
}

/// A label that reaches beyond the end of its chunk ends the decode with
/// an out-of-bounds error, whatever the decompressor is and whatever
/// follows the label.
pub proof fn lemma_label_out_of_bounds_fails<F: Fn(&[u8], &[u8], usize) -> Option<Vec<u8>>>(
    f: &F,
    bytes: Seq<u8>,
    dict: Seq<u8>,
    path: Seq<char>,
    chunk: Seq<u8>,
    at: int,
    n: int,
    have: Seq<(Seq<char>, Seq<char>)>,
    out: Result<(Seq<(Seq<char>, Seq<char>)>, int), FormatError>,
)
    requires
        n > 0,
        label_at(bytes, at) matches Ok((label, _)) && label.offset + label.size > chunk.len(),
    ensures
        labels_outcome(f, bytes, dict, path, chunk, at, n, have, out) <==> out == Err::<
            (Seq<(Seq<char>, Seq<char>)>, int),
            FormatError,
        >(FormatError::OutOfBounds),
{
}

} // verus!
