use vstd::prelude::*;
use crate::error::FormatError;

verus! {

/// The weight of the 7-bit group with index `k`: `128` to the power `k`.
pub open spec fn group_weight(k: int) -> int {
    if k <= 0 {
        1
    } else if k == 1 {
        128
    } else if k == 2 {
        16384
    } else if k == 3 {
        2097152
    } else {
        268435456
    }
}

/// Decoding a dynamic-width integer from group `k` on, with the groups
/// before `at` already summed up in `acc`. Groups 0 to 3 carry seven bits
/// and a continuation bit; a fifth byte carries the top four bits and must
/// not exceed `0x0F`. The result is the value and the offset after it.
pub open spec fn dyn_u32_from(bytes: Seq<u8>, at: int, k: int, acc: int) -> Result<
    (int, int),
    FormatError,
>
    decreases 4 - k,
{
    if at < 0 || at >= bytes.len() {
        Err(FormatError::Truncated)
    } else if k >= 4 {
        if bytes[at] > 0x0F {
            Err(FormatError::InvalidVarintTerminal(bytes[at]))
        } else {
            Ok((acc + bytes[at] * group_weight(4), at + 1))
        }
    } else if bytes[at] < 0x80 {
        Ok((acc + bytes[at] * group_weight(k), at + 1))
    } else {
        dyn_u32_from(bytes, at + 1, k + 1, acc + (bytes[at] - 0x80) * group_weight(k))
    }
}

/// The dynamic-width integer that starts at `bytes[start]`, with the offset
/// of the first byte after it.
pub open spec fn dyn_u32_at(bytes: Seq<u8>, start: int) -> Result<(int, int), FormatError> {
    dyn_u32_from(bytes, start, 0, 0)
}

/// The shortest encoding of `v` as a dynamic-width integer.
pub open spec fn dyn_u32_encoding(v: u32) -> Seq<u8> {
    let g0 = (v % 128) as u8;
    let g1 = ((v / 128) % 128) as u8;
    let g2 = ((v / 16384) % 128) as u8;
    let g3 = ((v / 2097152) % 128) as u8;
    let top = (v / 268435456) as u8;
    if v < 128 {
        seq![g0]
    } else if v < 16384 {
        seq![(g0 + 128) as u8, g1]
    } else if v < 2097152 {
        seq![(g0 + 128) as u8, (g1 + 128) as u8, g2]
    } else if v < 268435456 {
        seq![(g0 + 128) as u8, (g1 + 128) as u8, (g2 + 128) as u8, g3]
    } else {
        seq![(g0 + 128) as u8, (g1 + 128) as u8, (g2 + 128) as u8, (g3 + 128) as u8, top]
    }
}

/// Decodes the dynamic-width unsigned integer at `bin[start]`: up to four
/// groups of seven bits, least significant first, each followed by more
/// while its high bit is set, then at most one byte for bits 28 to 31.
/// Returns the value and the offset of the byte after it.
pub fn unpack_u32_dyn_le(bin: &[u8], start: usize) -> (r: Result<(u32, usize), FormatError>)
    ensures
        match dyn_u32_at(bin@, start as int) {
            Ok((value, next)) => r == Ok::<(u32, usize), FormatError>(
                (value as u32, next as usize),
            ) && 0 <= value <= u32::MAX && start < next <= bin@.len() && next <= start + 5,
            Err(e) => r == Err::<(u32, usize), FormatError>(e),
        },
{
    let mut value: u32 = 0;
    let mut i: usize = start;
    let mut k: u8 = 0;
    let mut weight: u32 = 1;
    while k < 4
        invariant
            k <= 4,
            weight == group_weight(k as int),
            0 <= value < weight,
            i == start + k,
            dyn_u32_at(bin@, start as int) == dyn_u32_from(bin@, i as int, k as int, value as int),
        decreases 4 - k,
    {
        if i >= bin.len() {
            return Err(FormatError::Truncated);
        }
        let byte: u8 = bin[i];
        i += 1;
        if byte < 0x80 {
            return Ok((value + (byte as u32) * weight, i));
        }
        value = value + ((byte - 0x80) as u32) * weight;
        weight = weight * 128;
        k += 1;
    }
    if i >= bin.len() {
        return Err(FormatError::Truncated);
    }
    let byte: u8 = bin[i];
    i += 1;
    if byte > 0x0F {
        return Err(FormatError::InvalidVarintTerminal(byte));
    }
    Ok((value + (byte as u32) * weight, i))
}

/// Decoding inverts encoding: whatever follows the encoding of `v`, the
/// decoder reads `v` back and stops right after the encoding.
pub proof fn lemma_dyn_u32_round_trip(v: u32, rest: Seq<u8>)
    ensures
        1 <= dyn_u32_encoding(v).len() <= 5,
        dyn_u32_at(dyn_u32_encoding(v) + rest, 0) == Ok::<(int, int), FormatError>(
            (v as int, dyn_u32_encoding(v).len() as int),
        ),
{
    let bytes = dyn_u32_encoding(v) + rest;
    reveal_with_fuel(dyn_u32_from, 6);
    if v < 128 {
        assert(bytes[0] == v);
    } else if v < 16384 {
        assert(bytes[0] == v % 128 + 128);
        assert(bytes[1] == v / 128);
    } else if v < 2097152 {
        assert(bytes[0] == v % 128 + 128);
        assert(bytes[1] == (v / 128) % 128 + 128);
        assert(bytes[2] == v / 16384);
    } else if v < 268435456 {
        assert(bytes[0] == v % 128 + 128);
        assert(bytes[1] == (v / 128) % 128 + 128);
        assert(bytes[2] == (v / 16384) % 128 + 128);
        assert(bytes[3] == v / 2097152);
    } else {
        assert(bytes[0] == v % 128 + 128);
        assert(bytes[1] == (v / 128) % 128 + 128);
        assert(bytes[2] == (v / 16384) % 128 + 128);
        assert(bytes[3] == (v / 2097152) % 128 + 128);
        assert(bytes[4] == v / 268435456);
    }
}

/// A fifth byte above `0x0F` is refused, whatever the four groups before it hold.
pub proof fn lemma_dyn_u32_terminal_refused(bytes: Seq<u8>, start: int)
    requires
        0 <= start,
        start + 5 <= bytes.len(),
        bytes[start] >= 0x80,
        bytes[start + 1] >= 0x80,
        bytes[start + 2] >= 0x80,
        bytes[start + 3] >= 0x80,
        bytes[start + 4] > 0x0F,
    ensures
        dyn_u32_at(bytes, start) == Err::<(int, int), FormatError>(
            FormatError::InvalidVarintTerminal(bytes[start + 4]),
        ),
{
    reveal_with_fuel(dyn_u32_from, 6);
}

} // verus!
