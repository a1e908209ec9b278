use vstd::prelude::*;
use crate::error::FormatError;

verus! {

/// The bytes of an optional buffer.
pub open spec fn opt_bytes(o: Option<Vec<u8>>) -> Option<Seq<u8>> {
    match o {
        Some(v) => Some(v@),
        None => None,
    }
}

/// The bytes of a buffer that may be an error instead.
pub open spec fn res_bytes(r: Result<Vec<u8>, FormatError>) -> Result<Seq<u8>, FormatError> {
    match r {
        Ok(v) => Ok(v@),
        Err(e) => Err(e),
    }
}

/// What a decompressor's answer is worth: its bytes where it produced
/// exactly `expected_len` of them, a size mismatch otherwise.
pub open spec fn accepted(expected_len: int, answer: Option<Seq<u8>>) -> Result<
    Seq<u8>,
    FormatError,
> {
    match answer {
        Some(bytes) => if bytes.len() == expected_len {
            Ok(bytes)
        } else {
            Err(FormatError::SizeMismatch)
        },
        None => Err(FormatError::SizeMismatch),
    }
}

/// `answer` is something that the fixed-size decompressor `f` may return
/// when asked to expand `data` to `expected_len` bytes.
pub open spec fn fixed_answer<F: Fn(&[u8], usize) -> Option<Vec<u8>>>(
    f: &F,
    data: Seq<u8>,
    expected_len: usize,
    answer: Option<Seq<u8>>,
) -> bool {
    exists|c: &[u8], o: Option<Vec<u8>>|
        c@ == data && #[trigger] call_ensures(*f, (c, expected_len), o) && answer == opt_bytes(o)
}

/// `answer` is something that the dictionary decompressor `f` may return
/// when asked to expand `data`, seeded with `dict`, to `expected_len` bytes.
pub open spec fn dict_answer<F: Fn(&[u8], &[u8], usize) -> Option<Vec<u8>>>(
    f: &F,
    data: Seq<u8>,
    dict: Seq<u8>,
    expected_len: usize,
    answer: Option<Seq<u8>>,
) -> bool {
    exists|c: &[u8], d: &[u8], o: Option<Vec<u8>>|
        c@ == data && d@ == dict && #[trigger] call_ensures(*f, (c, d, expected_len), o) && answer
            == opt_bytes(o)
}

/// `f` may be called on every input.
pub open spec fn fixed_total<F: Fn(&[u8], usize) -> Option<Vec<u8>>>(f: &F) -> bool {
    forall|c: &[u8], n: usize| call_requires(*f, (c, n))
}

/// `f` may be called on every input.
pub open spec fn dict_total<F: Fn(&[u8], &[u8], usize) -> Option<Vec<u8>>>(f: &F) -> bool {
    forall|c: &[u8], d: &[u8], n: usize| call_requires(*f, (c, d, n))
}

/// Checks what a decompressor handed back against the length that the
/// format declared. Decompressors are not trusted to do so themselves.
pub fn accept_output(expected_len: usize, answer: Option<Vec<u8>>) -> (r: Result<
    Vec<u8>,
    FormatError,
>)
    ensures
        res_bytes(r) == accepted(expected_len as int, opt_bytes(answer)),
{
    match answer {
        Some(bytes) => {
            if bytes.len() == expected_len {
                Ok(bytes)
            } else {
                Err(FormatError::SizeMismatch)
            }
        },
        None => Err(FormatError::SizeMismatch),
    }
}

} // verus!
