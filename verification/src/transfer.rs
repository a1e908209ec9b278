use vstd::prelude::*;
use crate::b64m::{b64m_decode, base64_bytes, swapped};
use crate::container::{hashed_region, md5_digest, shcc_hash, Container, ShccData};

verus! {

/// Type of a manifest file in a request path.
pub const TYPE_MANIFEST: u8 = 0xE;

/// Type of a binary file in a request path.
pub const TYPE_BIN: u8 = 0x2C;

/// What comparing a download with its declared hash came to.
#[derive(Clone, Copy, Debug, PartialEq, Eq, Structural)]
pub enum HashCheck {
    /// No hash was declared, or the response was itself compressed: such
    /// downloads are not checked.
    Skipped,
    /// The content hash equals the declared one.
    Matches,
    /// The content hash differs from the declared one.
    Mismatch,
    /// The declared hash is not valid base64.
    Undecodable,
}

/// The characters of the hash that stands for "none declared":
/// twenty-one `-` and a `w`.
pub open spec fn no_hash() -> Seq<char> {
    Seq::new(22, |i: int| if i < 21 { '-' } else { 'w' })
}

/// Whether `bytes` begin with the four characters `SHCC`.
pub open spec fn starts_with_shcc(bytes: Seq<u8>) -> bool {
    bytes.len() >= 4 && bytes[0] == 0x53 && bytes[1] == 0x48 && bytes[2] == 0x43 && bytes[3]
        == 0x43
}

/// The verdict on a download whose declared hash is `b64m_hash`.
pub open spec fn hash_verdict(data: Container, b64m_hash: Seq<char>, outer_compressed: bool)
    -> HashCheck {
    if b64m_hash == no_hash() || outer_compressed {
        HashCheck::Skipped
    } else {
        match base64_bytes(swapped(b64m_hash, '-', '/')) {
            None => HashCheck::Undecodable,
            Some(declared) => if md5_digest(hashed_region(data)) == declared {
                HashCheck::Matches
            } else {
                HashCheck::Mismatch
            },
        }
    }
}

/// Whether a response is a container as it stands. One that is not was
/// compressed as a whole and has to be expanded before it is decoded.
pub fn is_plain_container(bin: &[u8]) -> (plain: bool)
    ensures
        plain == starts_with_shcc(bin@),
{
    bin.len() >= 4 && bin[0] == 0x53 && bin[1] == 0x48 && bin[2] == 0x43 && bin[3] == 0x43
}

/// Whether two buffers hold the same bytes.
pub fn same_bytes(a: &[u8], b: &[u8]) -> (same: bool)
    ensures
        same == (a@ == b@),
{
    if a.len() != b.len() {
        return false;
    }
    let mut k: usize = 0;
    while k < a.len()
        invariant
            a@.len() == b@.len(),
            k <= a@.len(),
            forall|j: int| 0 <= j < k ==> a@[j] == b@[j],
        decreases a@.len() - k,
    {
        if a[k] != b[k] {
            return false;
        }
        k += 1;
    }
    assert(a@ =~= b@);
    true
}

/// Compares a decoded download with the hash that was declared for it.
/// `shcc_itself_compressed` says that the response had to be expanded as a
/// whole before it could be decoded; such a download is never checked.
pub fn check_download(data: &ShccData, b64m_hash: &str, shcc_itself_compressed: bool) -> (verdict:
    HashCheck)
    ensures
        verdict == hash_verdict(data@, b64m_hash@, shcc_itself_compressed),
{
    let declared = b64m_hash.to_owned();
    let none = "---------------------w".to_owned();
    proof {
        reveal_strlit("---------------------w");
        assert(none@ =~= no_hash());
    }
    if declared.eq(&none) || shcc_itself_compressed {
        return HashCheck::Skipped;
    }
    match b64m_decode(b64m_hash) {
        Err(_) => HashCheck::Undecodable,
        Ok(expected) => {
            let computed = shcc_hash(data);
            if same_bytes(computed.as_slice(), expected.as_slice()) {
                HashCheck::Matches
            } else {
                HashCheck::Mismatch
            }
        },
    }
}

/// Whether a file has to be fetched: not if the copy on disk, of which
/// `existing` is the content, opens with the hash that the manifest declares.
pub fn needs_download(manifest_hash: &[u8], existing: Option<&[u8]>) -> (fetch: bool)
    ensures
        fetch == !(existing matches Some(content) && content@.len() >= 16 && content@.subrange(
            0,
            16,
        ) == manifest_hash@),
{
    match existing {
        Some(content) => {
            if content.len() >= 16 {
                !same_bytes(vstd::slice::slice_subrange(content, 0, 16), manifest_hash)
            } else {
                true
            }
        },
        None => true,
    }
}

} // verus!
