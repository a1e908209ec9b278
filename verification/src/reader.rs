use vstd::prelude::*;
use crate::error::FormatError;

verus! {

/// The unsigned 16-bit little-endian number stored at `bytes[at]`, `bytes[at + 1]`.
pub open spec fn le_u16(bytes: Seq<u8>, at: int) -> int
    recommends
        0 <= at,
        at + 2 <= bytes.len(),
{
    bytes[at] as int + 256 * (bytes[at + 1] as int)
}

/// The unsigned 32-bit little-endian number stored in the four bytes from `bytes[at]`.
pub open spec fn le_u32(bytes: Seq<u8>, at: int) -> int
    recommends
        0 <= at,
        at + 4 <= bytes.len(),
{
    bytes[at] as int + 256 * (bytes[at + 1] as int) + 65536 * (bytes[at + 2] as int) + 16777216 * (
    bytes[at + 3] as int)
}

/// Whether `width` bytes can be read from `bytes` at `at`.
pub open spec fn has_bytes(bytes: Seq<u8>, at: int, width: int) -> bool {
    0 <= at && at + width <= bytes.len()
}

/// What a length-prefixed blob at `at` holds: the bytes after the 4-byte
/// little-endian length, if all of them are there.
pub open spec fn s4_at(bytes: Seq<u8>, at: int) -> Option<Seq<u8>> {
    if has_bytes(bytes, at, 4) && has_bytes(bytes, at + 4, le_u32(bytes, at)) {
        Some(bytes.subrange(at + 4, at + 4 + le_u32(bytes, at)))
    } else {
        None
    }
}

/// Reads a little-endian `u32` at the cursor and moves the cursor past it.
/// With fewer than four bytes left the cursor stays where it was.
pub fn read_u32_le(bin: &[u8], i: &mut usize) -> (r: Result<u32, FormatError>)
    ensures
        has_bytes(bin@, *old(i) as int, 4) ==> (r matches Ok(value) && value == le_u32(
            bin@,
            *old(i) as int,
        ) && *final(i) == *old(i) + 4),
        !has_bytes(bin@, *old(i) as int, 4) ==> r == Err::<u32, FormatError>(FormatError::Truncated)
            && *final(i) == *old(i),
{
    let at: usize = *i;
    if bin.len() < 4 || at > bin.len() - 4 {
        return Err(FormatError::Truncated);
    }
    let b0: u32 = bin[at] as u32;
    let b1: u32 = bin[at + 1] as u32;
    let b2: u32 = bin[at + 2] as u32;
    let b3: u32 = bin[at + 3] as u32;
    *i = at + 4;
    Ok(b0 + 256 * b1 + 65536 * b2 + 16777216 * b3)
}

/// Reads a little-endian `u16` at the cursor and moves the cursor past it.
/// With fewer than two bytes left the cursor stays where it was.
pub fn read_u16_le(bin: &[u8], i: &mut usize) -> (r: Result<u16, FormatError>)
    ensures
        has_bytes(bin@, *old(i) as int, 2) ==> (r matches Ok(value) && value == le_u16(
            bin@,
            *old(i) as int,
        ) && *final(i) == *old(i) + 2),
        !has_bytes(bin@, *old(i) as int, 2) ==> r == Err::<u16, FormatError>(FormatError::Truncated)
            && *final(i) == *old(i),
{
    let at: usize = *i;
    if bin.len() < 2 || at > bin.len() - 2 {
        return Err(FormatError::Truncated);
    }
    let b0: u16 = bin[at] as u16;
    let b1: u16 = bin[at + 1] as u16;
    *i = at + 2;
    Ok(b0 + 256 * b1)
}

/// Reads a length-prefixed blob at the cursor: a little-endian `u32` length,
/// then that many bytes. On success the cursor stands after the blob. If the
/// length itself is cut off the cursor does not move; if the blob is cut off
/// the cursor stays after the length.
pub fn read_s4(bin: &[u8], i: &mut usize) -> (r: Result<Vec<u8>, FormatError>)
    ensures
        match s4_at(bin@, *old(i) as int) {
            Some(blob) => r matches Ok(bytes) && bytes@ == blob && *final(i) == *old(i) + 4
                + blob.len(),
            None => r == Err::<Vec<u8>, FormatError>(FormatError::Truncated) && *final(i) == (if has_bytes(
                bin@,
                *old(i) as int,
                4,
            ) {
                *old(i) + 4
            } else {
                *old(i) as int
            }),
        },
{
    let len: usize = read_u32_le(bin, i)? as usize;
    let at: usize = *i;
    if len > bin.len() - at {
        return Err(FormatError::Truncated);
    }
    let blob = vstd::slice::slice_to_vec(vstd::slice::slice_subrange(bin, at, at + len));
    *i = at + len;
    Ok(blob)
}

} // verus!
