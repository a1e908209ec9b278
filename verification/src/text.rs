use vstd::prelude::*;

verus! {

/// The text that `bytes` stand for when read as UTF-8 with every invalid
/// sequence replaced by U+FFFD, as the standard library does it.
pub uninterp spec fn utf8_lossy(bytes: Seq<u8>) -> Seq<char>;

/// `String::from_utf8_lossy`: the permissive reading of `bytes` as text.
/// The result depends on the bytes alone; nothing more is claimed of it.
#[verifier::external_body]
pub(crate) fn lossy_string(bytes: &[u8]) -> (text: String)
    ensures
        text@ == utf8_lossy(bytes@),
{
    String::from_utf8_lossy(bytes).into_owned()
}

/// The characters of an optional string slice.
pub open spec fn opt_chars(s: Option<&str>) -> Option<Seq<char>> {
    match s {
        Some(s) => Some(s@),
        None => None,
    }
}

} // verus!
