use vstd::prelude::*;
use crate::codec::{accept_output, accepted, fixed_answer, fixed_total, opt_bytes};
use crate::error::FormatError;
use crate::reader::{has_bytes, le_u32, read_u32_le};

verus! {

/// The sizes that a block header declares.
#[derive(Clone, Copy, Debug, PartialEq, Eq, Structural)]
pub struct BlockHeader {
    /// Length of the compressed bytes that follow the header, marker included.
    pub compressed_size: usize,
    /// Length that those bytes expand to.
    pub decompressed_size: usize,
}

/// The unsigned 32-bit big-endian number stored in the four bytes from `bytes[at]`.
pub open spec fn be_u32(bytes: Seq<u8>, at: int) -> int
    recommends
        0 <= at,
        at + 4 <= bytes.len(),
{
    16777216 * (bytes[at] as int) + 65536 * (bytes[at + 1] as int) + 256 * (bytes[at + 2] as int)
        + bytes[at + 3] as int
}

/// Compressed size in a header: bits 2 to 25 of its first big-endian word.
pub open spec fn block_compressed_size(bytes: Seq<u8>, at: int) -> int {
    (be_u32(bytes, at) / 4) % 0x1000000
}

/// Decompressed size in a header: bits 5 to 28 of its second big-endian word.
pub open spec fn block_decompressed_size(bytes: Seq<u8>, at: int) -> int {
    (be_u32(bytes, at + 4) / 32) % 0x1000000
}

/// The block whose 8-byte header starts at `bytes[at]`. The header's first
/// byte is `0x80`, the low nibble of its last byte is `1`, the byte after it
/// is the marker `0x8C`, which is the first of the compressed bytes, and the
/// compressed bytes lie within the buffer.
pub open spec fn block_at(bytes: Seq<u8>, at: int) -> Result<(int, int), FormatError> {
    if !has_bytes(bytes, at, 8) {
        Err(FormatError::Truncated)
    } else if bytes[at] != 0x80 {
        Err(FormatError::InvalidBlockHeader)
    } else if bytes[at + 7] % 16 != 1 {
        Err(FormatError::InvalidBlockFooter)
    } else if at + 8 >= bytes.len() || bytes[at + 8] != 0x8C {
        Err(FormatError::InvalidBlockMarker)
    } else if at + 8 + block_compressed_size(bytes, at) > bytes.len() {
        Err(FormatError::Truncated)
    } else {
        Ok((block_compressed_size(bytes, at), block_decompressed_size(bytes, at)))
    }
}

/// Reads and checks the block header at `bin[at]`.
pub fn parse_block(bin: &[u8], at: usize) -> (r: Result<BlockHeader, FormatError>)
    ensures
        match block_at(bin@, at as int) {
            Ok((csize, dsize)) => r == Ok::<BlockHeader, FormatError>(
                (BlockHeader { compressed_size: csize as usize, decompressed_size: dsize as usize }),
            ) && 0 <= csize < 0x1000000 && 0 <= dsize < 0x1000000 && at + 8 + csize <= bin@.len(),
            Err(e) => r == Err::<BlockHeader, FormatError>(e),
        },
{
    if bin.len() < 8 || at > bin.len() - 8 {
        return Err(FormatError::Truncated);
    }
    if bin[at] != 0x80 {
        return Err(FormatError::InvalidBlockHeader);
    }
    let last: u8 = bin[at + 7];
    if (last & 0x0F) != 0x01 {
        assert((last & 0x0F) == last % 16) by (bit_vector);
        return Err(FormatError::InvalidBlockFooter);
    }
    assert((last & 0x0F) == last % 16) by (bit_vector);
    let num1: u32 = 16777216 * (bin[at] as u32) + 65536 * (bin[at + 1] as u32) + 256 * (bin[at
        + 2] as u32) + (bin[at + 3] as u32);
    let num2: u32 = 16777216 * (bin[at + 4] as u32) + 65536 * (bin[at + 5] as u32) + 256 * (bin[at
        + 6] as u32) + (bin[at + 7] as u32);
    let csize: u32 = (num1 >> 2) & 0xFFFFFF;
    let dsize: u32 = (num2 >> 5) & 0xFFFFFF;
    assert(((num1 >> 2) & 0xFFFFFF) == (num1 / 4) % 0x1000000) by (bit_vector);
    assert(((num2 >> 5) & 0xFFFFFF) == (num2 / 32) % 0x1000000) by (bit_vector);
    let data: usize = at + 8;
    if data >= bin.len() || bin[data] != 0x8C {
        return Err(FormatError::InvalidBlockMarker);
    }
    if csize as usize > bin.len() - data {
        return Err(FormatError::Truncated);
    }
    Ok(BlockHeader { compressed_size: csize as usize, decompressed_size: dsize as usize })
}

/// A buffer and the offset after it, or an error, with the buffer as its bytes.
pub open spec fn chunk_view(r: Result<(Vec<u8>, usize), FormatError>) -> Result<
    (Seq<u8>, int),
    FormatError,
> {
    match r {
        Ok((data, next)) => Ok((data@, next as int)),
        Err(e) => Err(e),
    }
}

/// `out` is a possible outcome of decoding blocks from `bytes[at]` on, with
/// `have` already decoded, until at least `target` bytes are there. Each
/// block's compressed bytes go to the decompressor `f`, whose answer counts
/// only if it has the length that the block's header declares.
pub open spec fn blocks_outcome<F: Fn(&[u8], usize) -> Option<Vec<u8>>>(
    f: &F,
    bytes: Seq<u8>,
    at: int,
    have: Seq<u8>,
    target: int,
    out: Result<(Seq<u8>, int), FormatError>,
) -> bool
    decreases bytes.len() - at,
{
    if have.len() >= target {
        out == Ok::<(Seq<u8>, int), FormatError>((have, at))
    } else {
        match block_at(bytes, at) {
            Err(e) => out == Err::<(Seq<u8>, int), FormatError>(e),
            Ok((csize, dsize)) => exists|answer: Option<Seq<u8>>| #[trigger]
                fixed_answer(f, bytes.subrange(at + 8, at + 8 + csize), dsize as usize, answer)
                    && match accepted(dsize, answer) {
                    Err(e) => out == Err::<(Seq<u8>, int), FormatError>(e),
                    Ok(block) => at + 8 + csize <= bytes.len() && blocks_outcome(
                        f,
                        bytes,
                        at + 8 + csize,
                        have + block,
                        target,
                        out,
                    ),
                },
        }
    }
}

/// `out` is a possible outcome of decoding the chunk whose 9-byte header
/// (type, decompressed size, compressed size) starts at `bytes[start]`.
/// A stored chunk (type 0) has one outcome; so has every malformed one.
pub open spec fn chunk_outcome<F: Fn(&[u8], usize) -> Option<Vec<u8>>>(
    f: &F,
    bytes: Seq<u8>,
    start: int,
    out: Result<(Seq<u8>, int), FormatError>,
) -> bool {
    if !has_bytes(bytes, start, 9) {
        out == Err::<(Seq<u8>, int), FormatError>(FormatError::Truncated)
    } else {
        let chunk_type = bytes[start];
        let dsize = le_u32(bytes, start + 1);
        let csize = le_u32(bytes, start + 5);
        if chunk_type == 0 {
            if csize != dsize {
                out == Err::<(Seq<u8>, int), FormatError>(FormatError::SizeMismatch)
            } else if start + 9 + csize > bytes.len() {
                out == Err::<(Seq<u8>, int), FormatError>(FormatError::Truncated)
            } else {
                out == Ok::<(Seq<u8>, int), FormatError>(
                    (bytes.subrange(start + 9, start + 9 + csize), start + 9 + dsize),
                )
            }
        } else if chunk_type == 2 {
            blocks_outcome(f, bytes, start + 9, Seq::<u8>::empty(), dsize, out)
        } else {
            out == Err::<(Seq<u8>, int), FormatError>(FormatError::UnknownChunkType(chunk_type))
        }
    }
}

/// Decodes blocks from `bin[start]` on until `decompressed_size` bytes are
/// there, and returns them with the offset after the last block read.
pub fn shcc_decompress_chunk_oodle<F: Fn(&[u8], usize) -> Option<Vec<u8>>>(
    bin: &[u8],
    start: usize,
    decompressed_size: usize,
    oodle: &F,
) -> (r: Result<(Vec<u8>, usize), FormatError>)
    requires
        fixed_total(oodle),
    ensures
        blocks_outcome(
            oodle,
            bin@,
            start as int,
            Seq::<u8>::empty(),
            decompressed_size as int,
            chunk_view(r),
        ),
        r matches Ok((data, next)) ==> data@.len() >= decompressed_size && start <= next
            && (next <= bin@.len() || next == start),
{
    let mut decompressed: Vec<u8> = Vec::new();
    let mut i: usize = start;
    let total: usize = bin.len();
    while decompressed.len() < decompressed_size
        invariant
            fixed_total(oodle),
            total == bin@.len(),
            start <= i,
            i <= bin@.len() || i == start,
            forall|out: Result<(Seq<u8>, int), FormatError>|
                #[trigger] blocks_outcome(
                    oodle,
                    bin@,
                    i as int,
                    decompressed@,
                    decompressed_size as int,
                    out,
                ) ==> blocks_outcome(
                    oodle,
                    bin@,
                    start as int,
                    Seq::<u8>::empty(),
                    decompressed_size as int,
                    out,
                ),
        decreases bin@.len() - i,
    {
        let header = match parse_block(bin, i) {
            Ok(header) => header,
            Err(e) => {
                assert(blocks_outcome(
                    oodle,
                    bin@,
                    i as int,
                    decompressed@,
                    decompressed_size as int,
                    Err(e),
                ));
                return Err(e);
            },
        };
        let data = vstd::slice::slice_subrange(bin, i + 8, i + 8 + header.compressed_size);
        let answer = oodle(data, header.decompressed_size);
        let ghost seen = opt_bytes(answer);
        assert(fixed_answer(oodle, data@, header.decompressed_size, seen));
        let block = match accept_output(header.decompressed_size, answer) {
            Ok(block) => block,
            Err(e) => {
                assert(blocks_outcome(
                    oodle,
                    bin@,
                    i as int,
                    decompressed@,
                    decompressed_size as int,
                    Err(e),
                ));
                return Err(e);
            },
        };
        let ghost before = decompressed@;
        decompressed.extend_from_slice(block.as_slice());
        assert(decompressed@ =~= before + block@);
        let next: usize = i + 8 + header.compressed_size;
        assert forall|out: Result<(Seq<u8>, int), FormatError>|
            #[trigger] blocks_outcome(
                oodle,
                bin@,
                next as int,
                decompressed@,
                decompressed_size as int,
                out,
            ) implies blocks_outcome(
            oodle,
            bin@,
            i as int,
            before,
            decompressed_size as int,
            out,
        ) by {
            assert(fixed_answer(oodle, data@, header.decompressed_size, seen));
        }
        i = next;
    }
    assert(blocks_outcome(
        oodle,
        bin@,
        i as int,
        decompressed@,
        decompressed_size as int,
        Ok((decompressed@, i as int)),
    ));
    Ok((decompressed, i))
}

/// Decodes the chunk whose header starts at `bin[start]`: a stored chunk is
/// copied, a block-compressed one is expanded block by block. Returns the
/// chunk's bytes and the offset after the chunk.
pub fn shcc_decompress_chunk<F: Fn(&[u8], usize) -> Option<Vec<u8>>>(
    bin: &[u8],
    start: usize,
    oodle: &F,
) -> (r: Result<(Vec<u8>, usize), FormatError>)
    requires
        fixed_total(oodle),
    ensures
        chunk_outcome(oodle, bin@, start as int, chunk_view(r)),
        r matches Ok((data, next)) ==> start + 9 <= next <= bin@.len(),
{
    if bin.len() < 9 || start > bin.len() - 9 {
        return Err(FormatError::Truncated);
    }
    let chunk_type: u8 = bin[start];
    let mut i: usize = start + 1;
    let decompressed_size: usize = match read_u32_le(bin, &mut i) {
        Ok(n) => n as usize,
        Err(e) => {
            return Err(e);
        },
    };
    let compressed_size: usize = match read_u32_le(bin, &mut i) {
        Ok(n) => n as usize,
        Err(e) => {
            return Err(e);
        },
    };
    if chunk_type == 0 {
        if compressed_size != decompressed_size {
            return Err(FormatError::SizeMismatch);
        }
        if compressed_size > bin.len() - i {
            return Err(FormatError::Truncated);
        }
        let data = vstd::slice::slice_to_vec(
            vstd::slice::slice_subrange(bin, i, i + compressed_size),
        );
        Ok((data, i + decompressed_size))
    } else if chunk_type == 2 {
        shcc_decompress_chunk_oodle(bin, i, decompressed_size, oodle)
    } else {
        Err(FormatError::UnknownChunkType(chunk_type))
    }
}

/// Changing the first byte of a well-formed block header to anything but
/// `0x80` makes the block an invalid-header error, and changing its last
/// byte to one whose low nibble is not `1` makes it an invalid-footer error.
pub proof fn lemma_block_header_bytes_are_checked(bytes: Seq<u8>, at: int, changed: u8)
    requires
        block_at(bytes, at) is Ok,
    ensures
        bytes[at] == 0x80,
        bytes[at + 7] % 16 == 1,
        changed != 0x80 ==> block_at(bytes.update(at, changed), at) == Err::<
            (int, int),
            FormatError,
        >(FormatError::InvalidBlockHeader),
        changed % 16 != 1 ==> block_at(bytes.update(at + 7, changed), at) == Err::<
            (int, int),
            FormatError,
        >(FormatError::InvalidBlockFooter),
{
}

/// The four bytes that stand for `n` in little-endian order.
pub open spec fn le_bytes(n: int) -> Seq<u8> {
    seq![
        (n % 256) as u8,
        ((n / 256) % 256) as u8,
        ((n / 65536) % 256) as u8,
        ((n / 16777216) % 256) as u8,
    ]
}

/// The stored chunk that holds `payload`: type 0, the payload's length
/// twice, the payload.
pub open spec fn stored_chunk(payload: Seq<u8>) -> Seq<u8> {
    seq![0u8] + le_bytes(payload.len() as int) + le_bytes(payload.len() as int) + payload
}

/// A stored chunk built around any payload, wherever it stands in a
/// buffer, decodes to that payload, whatever the decompressor is, and the
/// offset returned lies as many bytes after the chunk's header as the
/// payload has.
pub proof fn lemma_stored_chunk_round_trip<F: Fn(&[u8], usize) -> Option<Vec<u8>>>(
    f: &F,
    before: Seq<u8>,
    payload: Seq<u8>,
    after: Seq<u8>,
    out: Result<(Seq<u8>, int), FormatError>,
)
    requires
        payload.len() <= u32::MAX,
    ensures
        chunk_outcome(f, before + stored_chunk(payload) + after, before.len() as int, out) <==> out
            == Ok::<(Seq<u8>, int), FormatError>(
            (payload, before.len() as int + 9 + payload.len() as int),
        ),
{
    let bytes = before + stored_chunk(payload) + after;
    let start = before.len() as int;
    let n = payload.len() as int;
    assert(bytes.len() == start + 9 + n + after.len());
    assert(bytes[start] == 0);
    assert(bytes[start + 1] == (n % 256) as u8);
    assert(bytes[start + 2] == ((n / 256) % 256) as u8);
    assert(bytes[start + 3] == ((n / 65536) % 256) as u8);
    assert(bytes[start + 4] == ((n / 16777216) % 256) as u8);
    assert(bytes[start + 5] == (n % 256) as u8);
    assert(bytes[start + 6] == ((n / 256) % 256) as u8);
    assert(bytes[start + 7] == ((n / 65536) % 256) as u8);
    assert(bytes[start + 8] == ((n / 16777216) % 256) as u8);
    assert(le_u32(bytes, start + 1) == n);
    assert(le_u32(bytes, start + 5) == n);
    assert(bytes.subrange(start + 9, start + 9 + n) =~= payload);
    lemma_stored_chunk_decodes_to_payload(f, bytes, start, n, out);
}

/// A stored chunk of `n` bytes decodes to exactly those bytes, whatever the
/// decompressor is, and the offset returned lies `n` bytes after the header.
pub proof fn lemma_stored_chunk_decodes_to_payload<F: Fn(&[u8], usize) -> Option<Vec<u8>>>(
    f: &F,
    bytes: Seq<u8>,
    start: int,
    n: int,
    out: Result<(Seq<u8>, int), FormatError>,
)
    requires
        has_bytes(bytes, start, 9 + n),
        0 <= n,
        bytes[start] == 0,
        le_u32(bytes, start + 1) == n,
        le_u32(bytes, start + 5) == n,
    ensures
        chunk_outcome(f, bytes, start, out) <==> out == Ok::<(Seq<u8>, int), FormatError>(
            (bytes.subrange(start + 9, start + 9 + n), start + 9 + n),
        ),
{
}

} // verus!
