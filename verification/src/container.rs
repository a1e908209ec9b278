use vstd::prelude::*;
use crate::chunk::{chunk_outcome, chunk_view, shcc_decompress_chunk};
use crate::codec::{fixed_total, opt_bytes};
use crate::error::FormatError;

verus! {

/// A decoded container: the mandatory chunk, the optional second chunk, and
/// the second chunk's payload as it lay in the container, still compressed.
#[derive(Debug, Clone)]
pub struct ShccData {
    /// Bytes of the first chunk, decoded.
    pub h: Vec<u8>,
    /// Bytes of the second chunk, decoded, where the container has one.
    pub b: Option<Vec<u8>>,
    /// The container's bytes from after the second chunk's header up to its
    /// 15-byte trailer, as they are; kept for the content hash.
    pub b_raw: Option<Vec<u8>>,
}

/// A container as plain bytes.
pub struct Container {
    pub h: Seq<u8>,
    pub b: Option<Seq<u8>>,
    pub b_raw: Option<Seq<u8>>,
}

impl View for ShccData {
    type V = Container;

    open spec fn view(&self) -> Container {
        Container { h: self.h@, b: opt_bytes(self.b), b_raw: opt_bytes(self.b_raw) }
    }
}

/// A decoded container, or the error, with the container as plain bytes.
pub open spec fn container_view(r: Result<ShccData, FormatError>) -> Result<
    Container,
    FormatError,
> {
    match r {
        Ok(data) => Ok(data@),
        Err(e) => Err(e),
    }
}

/// The still-compressed payload of a second chunk that starts at `b_start`:
/// what lies between its 9-byte header and the last 15 bytes of the buffer.
/// A buffer too short to hold both has no such region.
pub open spec fn raw_region(bytes: Seq<u8>, b_start: int) -> Option<Seq<u8>> {
    if 0 <= b_start && b_start + 9 < bytes.len() && b_start + 9 <= bytes.len() - 15 {
        Some(bytes.subrange(b_start + 9, bytes.len() - 15))
    } else {
        None
    }
}

/// The container that is left once the first chunk gave `h` and ended at
/// `next`, and decoding a second chunk there, if bytes remain, gave `second`.
pub open spec fn with_second_chunk(
    bytes: Seq<u8>,
    h: Seq<u8>,
    next: int,
    second: Result<(Seq<u8>, int), FormatError>,
) -> Container {
    match second {
        Ok((b, _)) => Container { h, b: Some(b), b_raw: raw_region(bytes, next) },
        Err(_) => Container { h, b: None, b_raw: None },
    }
}

/// `out` is a possible outcome of decoding the container `bytes`: eight
/// bytes that are skipped, the first chunk, and, where bytes remain, an
/// attempt at a second chunk, whose failure leaves the container without one.
pub open spec fn container_outcome<F: Fn(&[u8], usize) -> Option<Vec<u8>>>(
    f: &F,
    bytes: Seq<u8>,
    out: Result<Container, FormatError>,
) -> bool {
    if bytes.len() < 8 {
        out == Err::<Container, FormatError>(FormatError::Truncated)
    } else {
        exists|first: Result<(Seq<u8>, int), FormatError>| #[trigger]
            chunk_outcome(f, bytes, 8, first) && match first {
                Err(e) => out == Err::<Container, FormatError>(e),
                Ok((h, next)) => if next < bytes.len() {
                    exists|second: Result<(Seq<u8>, int), FormatError>| #[trigger]
                        chunk_outcome(f, bytes, next, second) && out == Ok::<
                            Container,
                            FormatError,
                        >(with_second_chunk(bytes, h, next, second))
                } else {
                    out == Ok::<Container, FormatError>(Container { h, b: None, b_raw: None })
                },
            }
    }
}

/// Decodes a whole container. `oodle` expands one block to a given length;
/// what it returns is checked against that length.
pub fn shcc_unpack<F: Fn(&[u8], usize) -> Option<Vec<u8>>>(bin: &[u8], oodle: &F) -> (r: Result<
    ShccData,
    FormatError,
>)
    requires
        fixed_total(oodle),
    ensures
        container_outcome(oodle, bin@, container_view(r)),
{
    if bin.len() < 8 {
        return Err(FormatError::Truncated);
    }
    let first = shcc_decompress_chunk(bin, 8, oodle);
    let ghost first_seen = chunk_view(first);
    let (h_data, i) = match first {
        Ok(pair) => pair,
        Err(e) => {
            return Err(e);
        },
    };
    let mut b_data: Option<Vec<u8>> = None;
    let mut b_raw: Option<Vec<u8>> = None;
    if i < bin.len() {
        let second = shcc_decompress_chunk(bin, i, oodle);
        let ghost second_seen = chunk_view(second);
        match second {
            Ok((b, _)) => {
                b_data = Some(b);
                if bin.len() >= 24 && i <= bin.len() - 24 {
                    b_raw = Some(
                        vstd::slice::slice_to_vec(
                            vstd::slice::slice_subrange(bin, i + 9, bin.len() - 15),
                        ),
                    );
                }
            },
            Err(_) => {},
        }
        let data = ShccData { h: h_data, b: b_data, b_raw };
        assert(chunk_outcome(oodle, bin@, i as int, second_seen));
        assert(data@ == with_second_chunk(bin@, h_data@, i as int, second_seen));
        assert(chunk_outcome(oodle, bin@, 8, first_seen));
        return Ok(data);
    }
    let data = ShccData { h: h_data, b: b_data, b_raw };
    assert(chunk_outcome(oodle, bin@, 8, first_seen));
    Ok(data)
}

/// The eight bytes that open every hashed region: `SHCC`, then `0x1F` and
/// three zero bytes.
pub open spec fn hash_magic() -> Seq<u8> {
    seq![0x53u8, 0x48u8, 0x43u8, 0x43u8, 0x1Fu8, 0u8, 0u8, 0u8]
}

/// What the content hash covers: the magic, the first chunk without its
/// leading 16-byte hash field, and the raw payload of the second chunk.
pub open spec fn hashed_region(data: Container) -> Seq<u8> {
    hash_magic() + (if data.h.len() >= 16 {
        data.h.subrange(16, data.h.len() as int)
    } else {
        Seq::<u8>::empty()
    }) + (match data.b_raw {
        Some(raw) => raw,
        None => Seq::<u8>::empty(),
    })
}

/// The MD5 digest of `data`, as the `md5` crate computes it.
pub uninterp spec fn md5_digest(data: Seq<u8>) -> Seq<u8>;

/// `md5::compute`: the result is the 16-byte MD5 digest of `data`, which
/// depends on `data` alone.
#[verifier::external_body]
fn md5_of(data: &[u8]) -> (digest: Vec<u8>)
    ensures
        digest@ == md5_digest(data@),
        digest@.len() == 16,
{
    md5::compute(data).0.to_vec()
}

/// Computes the content hash of a decoded container: the MD5 digest of
/// [`hashed_region`]. A manifest declares this value for each file.
pub fn shcc_hash(data: &ShccData) -> (digest: Vec<u8>)
    ensures
        digest@ == md5_digest(hashed_region(data@)),
        digest@.len() == 16,
{
    let mut region: Vec<u8> = Vec::new();
    region.push(0x53);
    region.push(0x48);
    region.push(0x43);
    region.push(0x43);
    region.push(0x1F);
    region.push(0);
    region.push(0);
    region.push(0);
    assert(region@ =~= hash_magic());
    if data.h.len() >= 16 {
        let tail = vstd::slice::slice_subrange(data.h.as_slice(), 16, data.h.len());
        region.extend_from_slice(tail);
    }
    match &data.b_raw {
        Some(raw) => {
            region.extend_from_slice(raw.as_slice());
        },
        None => {},
    }
    assert(region@ =~= hashed_region(data@));
    md5_of(region.as_slice())
}

/// Two containers with the same first chunk and the same raw second payload
/// have the same content hash; the decoded second chunk plays no part.
pub proof fn lemma_hash_depends_on_region_only(x: Container, y: Container)
    requires
        x.h == y.h,
        x.b_raw == y.b_raw,
    ensures
        md5_digest(hashed_region(x)) == md5_digest(hashed_region(y)),
{
}

} // verus!
