use vstd::prelude::*;
use base64::Engine;
use crate::error::FormatError;

verus! {

/// The unpadded base64 text of `data` in the standard alphabet, as the
/// `base64` crate writes it.
pub uninterp spec fn base64_text(data: Seq<u8>) -> Seq<char>;

/// The bytes that the `base64` crate reads from `text` as unpadded base64
/// in the standard alphabet, or `None` where it refuses the text.
pub uninterp spec fn base64_bytes(text: Seq<char>) -> Option<Seq<u8>>;

/// The error of the `base64` crate's decoder. It is carried from the
/// decoder to [`b64m_decode`] and never looked into.
#[verifier::external_type_specification]
#[verifier::external_body]
pub struct ExBase64DecodeError(base64::DecodeError);

/// `text` with every `from` turned into `to`.
pub open spec fn swapped(text: Seq<char>, from: char, to: char) -> Seq<char> {
    text.map_values(
        |c: char|
            if c == from {
                to
            } else {
                c
            },
    )
}

/// Largest input that base64 can encode: the text, four characters for
/// every three bytes and up to three more, has to fit a `usize`.
pub open spec fn encodable_len(len: int) -> bool {
    (len / 3) * 4 + 3 <= usize::MAX
}

/// `Engine::encode` of `BASE64_STANDARD_NO_PAD`: the result is the unpadded
/// base64 text of `data` and depends on `data` alone. The call panics where
/// the length of the text overflows, which the precondition excludes.
#[verifier::external_body]
fn base64_encode(data: &[u8]) -> (text: String)
    requires
        encodable_len(data@.len() as int),
    ensures
        text@ == base64_text(data@),
{
    base64::prelude::BASE64_STANDARD_NO_PAD.encode(data)
}

/// `Engine::decode` of `BASE64_STANDARD_NO_PAD`: the bytes that `text`
/// stands for, or the crate's error where it does not accept `text`. Which
/// of the two, and which bytes, depends on `text` alone.
#[verifier::external_body]
fn base64_decode(text: &str) -> (r: Result<Vec<u8>, base64::DecodeError>)
    ensures
        match r {
            Ok(bytes) => base64_bytes(text@) == Some(bytes@),
            Err(_) => base64_bytes(text@) is None,
        },
{
    base64::prelude::BASE64_STANDARD_NO_PAD.decode(text)
}

/// `str::replace` with a character as the pattern and a one-character
/// replacement: every occurrence of `from` becomes that character, and
/// nothing else changes.
#[verifier::external_body]
fn replace_char(text: &str, from: char, to: &str) -> (r: String)
    requires
        to@.len() == 1,
    ensures
        r@ == swapped(text@, from, to@[0]),
{
    text.replace(from, to)
}

/// Encodes `data` for use in a request path: unpadded base64 with `-` in
/// place of `/`.
pub fn b64m_encode(data: &[u8]) -> (text: String)
    requires
        encodable_len(data@.len() as int),
    ensures
        text@ == swapped(base64_text(data@), '/', '-'),
{
    let plain = base64_encode(data);
    proof {
        reveal_strlit("-");
    }
    replace_char(plain.as_str(), '/', "-")
}

/// Decodes what [`b64m_encode`] wrote: `-` stands for `/`, and the rest is
/// unpadded base64.
pub fn b64m_decode(data: &str) -> (r: Result<Vec<u8>, FormatError>)
    ensures
        match base64_bytes(swapped(data@, '-', '/')) {
            Some(bytes) => r matches Ok(decoded) && decoded@ == bytes,
            None => r matches Err(e) && e == FormatError::InvalidBase64,
        },
{
    proof {
        reveal_strlit("/");
    }
    let normalized = replace_char(data, '-', "/");
    match base64_decode(normalized.as_str()) {
        Ok(bytes) => Ok(bytes),
        Err(_) => Err(FormatError::InvalidBase64),
    }
}

} // verus!
