use vstd::prelude::*;
use vstd::hash_map::StringHashMap;
use crate::codec::opt_bytes;
use crate::reader::{has_bytes, le_u32, read_u32_le};
use crate::table::{copy_strings, texts};
use crate::text::{lossy_string, opt_chars, utf8_lossy};

verus! {

/// Offset of the first group: the manifest's 20-byte header is never read.
pub const MANIFEST_HEADER_LEN: usize = 20;

/// A manifest store as plain values: the buffer, the scan cursor, how many
/// entries of the current group are still to come, and what was scanned so
/// far, as a list of paths in scan order and as two maps by path in which
/// a later entry replaces an earlier one of the same path.
pub struct ManifestState {
    pub bytes: Seq<u8>,
    pub cursor: int,
    pub remaining: int,
    pub paths: Seq<Seq<char>>,
    pub hashes: Map<Seq<char>, Seq<u8>>,
    pub unknowns: Map<Seq<char>, Seq<u8>>,
}

/// A manifest over `bytes` of which nothing has been scanned yet.
pub open spec fn fresh_manifest(bytes: Seq<u8>) -> ManifestState {
    ManifestState {
        bytes,
        cursor: MANIFEST_HEADER_LEN as int,
        remaining: 0,
        paths: Seq::empty(),
        hashes: Map::empty(),
        unknowns: Map::empty(),
    }
}

/// Path of the entry whose path length stands at `at`.
pub open spec fn entry_path(bytes: Seq<u8>, at: int) -> Seq<char> {
    utf8_lossy(bytes.subrange(at + 4, at + 4 + le_u32(bytes, at)))
}

/// Hash of the entry whose path length stands at `at`: the 16 bytes after the path.
pub open spec fn entry_hash(bytes: Seq<u8>, at: int) -> Seq<u8> {
    bytes.subrange(at + 4 + le_u32(bytes, at), at + 4 + le_u32(bytes, at) + 16)
}

/// The four bytes of unknown meaning that close the entry at `at`.
pub open spec fn entry_unknown(bytes: Seq<u8>, at: int) -> Seq<u8> {
    bytes.subrange(at + 4 + le_u32(bytes, at) + 16, at + 4 + le_u32(bytes, at) + 20)
}

/// Whether the whole entry whose path length stands at `at` lies in the buffer.
pub open spec fn entry_fits(bytes: Seq<u8>, at: int) -> bool {
    has_bytes(bytes, at, 4) && at + 4 + le_u32(bytes, at) + 20 <= bytes.len()
}

/// The state after recording the entry at the cursor.
pub open spec fn record_entry(st: ManifestState) -> ManifestState {
    let path = entry_path(st.bytes, st.cursor);
    ManifestState {
        bytes: st.bytes,
        cursor: st.cursor + 4 + le_u32(st.bytes, st.cursor) + 20,
        remaining: st.remaining - 1,
        paths: st.paths.push(path),
        hashes: st.hashes.insert(path, entry_hash(st.bytes, st.cursor)),
        unknowns: st.unknowns.insert(path, entry_unknown(st.bytes, st.cursor)),
    }
}

/// Scanning from `st` on: the state in which the scan halts, and the hash
/// found. The scan reads a group count whenever no entry of the current
/// group remains, then one entry after the other, and records each. It
/// halts on the first entry whose path is `stop`, with that entry's hash,
/// or without a hash at the end of the buffer or at an entry that is cut
/// off. An entry cut off after its path length leaves the cursor behind
/// that length.
pub open spec fn scan(st: ManifestState, stop: Option<Seq<char>>) -> (ManifestState, Option<Seq<u8>>)
    decreases st.bytes.len() - st.cursor,
{
    if st.cursor < 0 || st.cursor >= st.bytes.len() {
        (st, None)
    } else if st.remaining == 0 {
        if !has_bytes(st.bytes, st.cursor, 4) {
            (st, None)
        } else {
            scan(
                ManifestState {
                    cursor: st.cursor + 4,
                    remaining: le_u32(st.bytes, st.cursor),
                    ..st
                },
                stop,
            )
        }
    } else if !has_bytes(st.bytes, st.cursor, 4) {
        (ManifestState { remaining: st.remaining - 1, ..st }, None)
    } else if !entry_fits(st.bytes, st.cursor) {
        (ManifestState { cursor: st.cursor + 4, remaining: st.remaining - 1, ..st }, None)
    } else if stop == Some(entry_path(st.bytes, st.cursor)) {
        (record_entry(st), Some(entry_hash(st.bytes, st.cursor)))
    } else {
        scan(record_entry(st), stop)
    }
}

/// A manifest: a buffer of path entries in count-prefixed groups, scanned
/// on demand from a cursor that only ever moves forward.
pub struct SoulframeManifest {
    bin: Vec<u8>,
    i: usize,
    remaining_entries: u32,
    paths: Vec<String>,
    hashes: StringHashMap<Vec<u8>>,
    unks: StringHashMap<Vec<u8>>,
}

impl View for SoulframeManifest {
    type V = ManifestState;

    closed spec fn view(&self) -> ManifestState {
        ManifestState {
            bytes: self.bin@,
            cursor: self.i as int,
            remaining: self.remaining_entries as int,
            paths: texts(self.paths@),
            hashes: self.hashes@.map_values(|v: Vec<u8>| v@),
            unknowns: self.unks@.map_values(|v: Vec<u8>| v@),
        }
    }
}

impl SoulframeManifest {
    /// Wraps a manifest buffer; the cursor stands after the 20-byte header.
    pub fn new(bin: Vec<u8>) -> (manifest: Self)
        ensures
            manifest@ == fresh_manifest(bin@),
    {
        let manifest = SoulframeManifest {
            bin,
            i: MANIFEST_HEADER_LEN,
            remaining_entries: 0,
            paths: Vec::new(),
            hashes: StringHashMap::new(),
            unks: StringHashMap::new(),
        };
        assert(manifest@.paths =~= Seq::<Seq<char>>::empty());
        assert(manifest@.hashes =~= Map::<Seq<char>, Seq<u8>>::empty());
        assert(manifest@.unknowns =~= Map::<Seq<char>, Seq<u8>>::empty());
        manifest
    }

    /// The offset at which the next scan resumes.
    pub fn position(&self) -> (at: usize)
        ensures
            at == self@.cursor,
    {
        self.i
    }

    /// Scans forward from the cursor, recording every entry read, until an
    /// entry with the path `opt_stop_at_path` was read, whose hash is then
    /// returned, or until the buffer ends or is cut off, which gives `None`.
    pub fn seek(&mut self, opt_stop_at_path: Option<&str>) -> (found: Option<Vec<u8>>)
        ensures
            final(self)@ == scan(old(self)@, opt_chars(opt_stop_at_path)).0,
            opt_bytes(found) == scan(old(self)@, opt_chars(opt_stop_at_path)).1,
    {
        let target: Option<String> = match opt_stop_at_path {
            Some(s) => Some(s.to_owned()),
            None => None,
        };
        let ghost stop = opt_chars(opt_stop_at_path);
        let total: usize = self.bin.len();
        while self.i < total
            invariant
                total == self.bin@.len(),
                stop == opt_chars(opt_stop_at_path),
                stop == (match target {
                    Some(t) => Some(t@),
                    None => None,
                }),
                scan(self@, stop) == scan(old(self)@, stop),
            decreases total - self.i,
        {
            let at: usize = self.i;
            if self.remaining_entries == 0 {
                let mut cursor: usize = at;
                match read_u32_le(self.bin.as_slice(), &mut cursor) {
                    Ok(count) => {
                        self.remaining_entries = count;
                        self.i = cursor;
                    },
                    Err(_) => {
                        return None;
                    },
                }
            } else {
                let ghost before = self@;
                self.remaining_entries = self.remaining_entries - 1;
                let mut cursor: usize = at;
                let path_len: usize = match read_u32_le(self.bin.as_slice(), &mut cursor) {
                    Ok(n) => n as usize,
                    Err(_) => {
                        return None;
                    },
                };
                if total - cursor < 20 || path_len > total - cursor - 20 {
                    self.i = cursor;
                    return None;
                }
                let bin = self.bin.as_slice();
                let path = lossy_string(vstd::slice::slice_subrange(bin, cursor, cursor + path_len));
                let hash_at: usize = cursor + path_len;
                let hash_bytes = vstd::slice::slice_subrange(bin, hash_at, hash_at + 16);
                let hash = vstd::slice::slice_to_vec(hash_bytes);
                let found = vstd::slice::slice_to_vec(hash_bytes);
                let unk = vstd::slice::slice_to_vec(
                    vstd::slice::slice_subrange(bin, hash_at + 16, hash_at + 20),
                );
                let hit = match &target {
                    Some(t) => path.eq(t),
                    None => false,
                };
                self.i = hash_at + 20;
                self.paths.push(path.clone());
                self.hashes.insert(path.clone(), hash);
                self.unks.insert(path, unk);
                assert(self@.paths =~= record_entry(before).paths);
                assert(self@.hashes =~= record_entry(before).hashes);
                assert(self@.unknowns =~= record_entry(before).unknowns);
                assert(self@ == record_entry(before));
                if hit {
                    return Some(found);
                }
            }
        }
        None
    }

    /// The hash that the manifest declares for `path`: the one already
    /// recorded, if there is one, else the one that scanning on finds.
    pub fn get_hash(&mut self, path: &str) -> (found: Option<Vec<u8>>)
        ensures
            old(self)@.hashes.contains_key(path@) ==> final(self)@ == old(self)@ && opt_bytes(found)
                == Some(old(self)@.hashes[path@]),
            !old(self)@.hashes.contains_key(path@) ==> final(self)@ == scan(
                old(self)@,
                Some(path@),
            ).0 && opt_bytes(found) == scan(old(self)@, Some(path@)).1,
    {
        match self.hashes.get(path) {
            Some(hash) => {
                return Some(vstd::slice::slice_to_vec(hash.as_slice()));
            },
            None => {},
        }
        self.seek(Some(path))
    }

    /// Scans the rest of the manifest and returns every path read so far,
    /// in scan order, repeated paths included.
    pub fn get_paths(&mut self) -> (paths: Vec<String>)
        ensures
            final(self)@ == scan(old(self)@, None).0,
            texts(paths@) == final(self)@.paths,
    {
        let _ = self.seek(None);
        copy_strings(&self.paths)
    }
}

/// A scan never rewinds and never forgets: the buffer stays, the cursor
/// does not move back, and what was recorded before is still there, the
/// paths as a prefix of the new list. Without a path to stop at it finds
/// nothing; a hash that it finds is the one now recorded for the path it
/// was to stop at, which is the last path read.
pub proof fn lemma_scan_moves_forward(st: ManifestState, stop: Option<Seq<char>>)
    ensures
        scan(st, stop).0.bytes == st.bytes,
        scan(st, stop).0.cursor >= st.cursor,
        st.paths.is_prefix_of(scan(st, stop).0.paths),
        stop is None ==> scan(st, stop).1 is None,
        scan(st, stop).1 matches Some(hash) ==> stop matches Some(path) && scan(
            st,
            stop,
        ).0.hashes.contains_key(path) && scan(st, stop).0.hashes[path] == hash && scan(
            st,
            stop,
        ).0.paths.len() > st.paths.len() && scan(st, stop).0.paths.last() == path,
    decreases st.bytes.len() - st.cursor,
{
    if st.cursor < 0 || st.cursor >= st.bytes.len() {
    } else if st.remaining == 0 {
        if has_bytes(st.bytes, st.cursor, 4) {
            lemma_scan_moves_forward(
                ManifestState {
                    cursor: st.cursor + 4,
                    remaining: le_u32(st.bytes, st.cursor),
                    ..st
                },
                stop,
            );
        }
    } else if !has_bytes(st.bytes, st.cursor, 4) {
    } else if !entry_fits(st.bytes, st.cursor) {
    } else if stop == Some(entry_path(st.bytes, st.cursor)) {
    } else {
        lemma_scan_moves_forward(record_entry(st), stop);
    }
}

/// Once the cursor has reached the end of the buffer, scanning changes nothing.
pub proof fn lemma_scan_at_end_is_idle(st: ManifestState, stop: Option<Seq<char>>)
    requires
        st.cursor >= st.bytes.len(),
    ensures
        scan(st, stop) == (st, None::<Seq<u8>>),
{
}

} // verus!
