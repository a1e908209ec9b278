use vstd::prelude::*;

verus! {

/// Why a decode call gave up. Every variant ends the call it occurs in:
/// no decoder hands back a partial result.
#[derive(Clone, Copy, Debug, PartialEq, Eq, Structural)]
pub enum FormatError {
    /// The buffer ends before the structure being read does.
    Truncated,
    /// The first byte of a block header is not `0x80`.
    InvalidBlockHeader,
    /// The low nibble of the last byte of a block header is not `0x1`.
    InvalidBlockFooter,
    /// The byte after a block header is missing or is not `0x8C`.
    InvalidBlockMarker,
    /// The three constants that open a string table are not `0x14`, `0x2B`, `0x01`.
    InvalidMagic,
    /// A stored chunk declares two different sizes, or a decompressor did
    /// not produce the declared number of bytes.
    SizeMismatch,
    /// The chunk type byte is neither `0` (stored) nor `2` (block-compressed).
    UnknownChunkType(u8),
    /// A label's `offset + size` lies beyond the end of its chunk.
    OutOfBounds,
    /// The fifth byte of a dynamic-width integer is larger than `0x0F`.
    InvalidVarintTerminal(u8),
    /// A text that should be unpadded base64 is not.
    InvalidBase64,
}

} // verus!
