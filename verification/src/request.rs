use vstd::prelude::*;
use vstd::string::{StrSliceExecFns, StringExecFns};
use rand::Rng;
use crate::table::texts;
use crate::transfer::no_hash;

verus! {

/// The sixteen upper-case hexadecimal digits.
pub open spec fn hex_digits() -> Seq<char> {
    seq!['0', '1', '2', '3', '4', '5', '6', '7', '8', '9', 'A', 'B', 'C', 'D', 'E', 'F']
}

/// `v` in upper-case hexadecimal without leading zeros.
pub open spec fn upper_hex(v: u8) -> Seq<char> {
    if v < 16 {
        seq![hex_digits()[v as int]]
    } else {
        seq![hex_digits()[v as int / 16], hex_digits()[v as int % 16]]
    }
}

/// `v` in upper-case hexadecimal, eight digits wide.
pub open spec fn upper_hex_8(v: u32) -> Seq<char> {
    seq![
        hex_digits()[(v as int / 0x10000000) % 16],
        hex_digits()[(v as int / 0x1000000) % 16],
        hex_digits()[(v as int / 0x100000) % 16],
        hex_digits()[(v as int / 0x10000) % 16],
        hex_digits()[(v as int / 0x1000) % 16],
        hex_digits()[(v as int / 0x100) % 16],
        hex_digits()[(v as int / 0x10) % 16],
        hex_digits()[v as int % 16],
    ]
}

/// `path` with a leading `/`, which is added where it is missing.
pub open spec fn normalized(path: Seq<char>) -> Seq<char> {
    if path.len() > 0 && path[0] == '/' {
        path
    } else {
        seq!['/'] + path
    }
}

/// The name under which a file is kept and asked for: `0`, the locale
/// suffix, the path.
pub open spec fn relative_name_of(path: Seq<char>, suffix: Seq<char>) -> Seq<char> {
    seq!['0'] + suffix + path
}

/// The request path of a file: `/`, its name, `!`, its type in
/// hexadecimal, `_`, its declared hash.
pub open spec fn request_path_of(
    path: Seq<char>,
    file_type: u8,
    b64m_hash: Seq<char>,
    suffix: Seq<char>,
) -> Seq<char> {
    seq!['/'] + relative_name_of(normalized(path), suffix) + seq!['!'] + upper_hex(file_type)
        + seq!['_'] + b64m_hash
}

/// The addresses that are tried for a request path, in this order: the
/// content network, the origin, the origin under a random identifier that
/// no cache has seen, and the origin under the identifier `0`.
pub open spec fn candidate_urls_of(req_path: Seq<char>, random_id: u32) -> Seq<Seq<char>> {
    seq![
        "https://content.soulframe.com"@ + req_path,
        "https://origin.soulframe.com"@ + req_path,
        "https://origin.soulframe.com/origin/"@ + upper_hex_8(random_id) + req_path,
        "https://origin.soulframe.com/origin/0"@ + req_path,
    ]
}

/// The characters of an optional string slice, or those of `default`.
pub open spec fn chars_or(s: Option<&str>, default: Seq<char>) -> Seq<char> {
    match s {
        Some(s) => s@,
        None => default,
    }
}

/// Appends the hexadecimal digit of `nibble` to `out`.
fn push_hex_digit(out: &mut String, nibble: u8)
    requires
        nibble < 16,
    ensures
        final(out)@ == old(out)@.push(hex_digits()[nibble as int]),
{
    proof {
        reveal_strlit("0123456789ABCDEF");
    }
    let digits = "0123456789ABCDEF";
    assert(digits@ =~= hex_digits());
    let digit = digits.substring_ascii(nibble as usize, nibble as usize + 1);
    assert(digit@ =~= seq![hex_digits()[nibble as int]]);
    let ghost before = out@;
    out.append(digit);
    assert(out@ =~= before.push(hex_digits()[nibble as int]));
}

/// Puts a `/` before `path` unless it starts with one.
pub fn normalize_path(path: &str) -> (r: String)
    ensures
        r@ == normalized(path@),
{
    proof {
        reveal_strlit("/");
    }
    if path.unicode_len() > 0 && path.get_char(0) == '/' {
        path.to_owned()
    } else {
        let r = "/".to_owned().concat(path);
        assert(r@ =~= seq!['/'] + path@);
        r
    }
}

/// The name of a file below the data directory: `0`, the locale suffix, the path.
pub fn relative_name(path: &str, suffix: Option<&str>) -> (r: String)
    ensures
        r@ == relative_name_of(path@, chars_or(suffix, Seq::empty())),
{
    proof {
        reveal_strlit("0");
    }
    let mut r = "0".to_owned();
    match suffix {
        Some(s) => {
            r.append(s);
        },
        None => {},
    }
    r.append(path);
    assert(r@ =~= relative_name_of(path@, chars_or(suffix, Seq::empty())));
    r
}

/// The request path of the file `path` of type `file_type`. Without a
/// declared hash the path names the hash that stands for none.
pub fn request_path(path: &str, file_type: u8, b64m_hash: Option<&str>, suffix: Option<&str>) -> (r:
    String)
    ensures
        r@ == request_path_of(
            path@,
            file_type,
            chars_or(b64m_hash, no_hash()),
            chars_or(suffix, Seq::empty()),
        ),
{
    proof {
        reveal_strlit("/");
        reveal_strlit("!");
        reveal_strlit("_");
        reveal_strlit("---------------------w");
    }
    let normalized_path = normalize_path(path);
    let name = relative_name(normalized_path.as_str(), suffix);
    let mut r = "/".to_owned();
    r.append(name.as_str());
    r.append("!");
    if file_type >= 16 {
        push_hex_digit(&mut r, file_type / 16);
    }
    push_hex_digit(&mut r, file_type % 16);
    r.append("_");
    match b64m_hash {
        Some(hash) => {
            r.append(hash);
        },
        None => {
            let none = "---------------------w";
            assert(none@ =~= no_hash());
            r.append(none);
        },
    }
    assert(r@ =~= request_path_of(
        path@,
        file_type,
        chars_or(b64m_hash, no_hash()),
        chars_or(suffix, Seq::empty()),
    ));
    r
}

/// The addresses to try for `req_path`, with `random_id` as the identifier
/// that gets past the caches.
pub fn candidate_urls(req_path: &str, random_id: u32) -> (urls: Vec<String>)
    ensures
        texts(urls@) == candidate_urls_of(req_path@, random_id),
{
    let mut urls: Vec<String> = Vec::new();
    urls.push("https://content.soulframe.com".to_owned().concat(req_path));
    urls.push("https://origin.soulframe.com".to_owned().concat(req_path));
    let mut fresh = "https://origin.soulframe.com/origin/".to_owned();
    let ghost head = fresh@;
    push_hex_digit(&mut fresh, ((random_id / 0x10000000) % 16) as u8);
    push_hex_digit(&mut fresh, ((random_id / 0x1000000) % 16) as u8);
    push_hex_digit(&mut fresh, ((random_id / 0x100000) % 16) as u8);
    push_hex_digit(&mut fresh, ((random_id / 0x10000) % 16) as u8);
    push_hex_digit(&mut fresh, ((random_id / 0x1000) % 16) as u8);
    push_hex_digit(&mut fresh, ((random_id / 0x100) % 16) as u8);
    push_hex_digit(&mut fresh, ((random_id / 0x10) % 16) as u8);
    push_hex_digit(&mut fresh, (random_id % 16) as u8);
    assert(fresh@ =~= head + upper_hex_8(random_id));
    urls.push(fresh.concat(req_path));
    urls.push("https://origin.soulframe.com/origin/0".to_owned().concat(req_path));
    assert(texts(urls@) =~= candidate_urls_of(req_path@, random_id));
    urls
}

/// `Rng::gen` on `rand::thread_rng()`: some `u32`. Nothing is known of it,
/// and two calls may differ.
#[verifier::external_body]
fn random_id() -> (id: u32) {
    rand::thread_rng().gen()
}

/// The addresses to try for `req_path`, the third of them under a freshly
/// drawn random identifier.
pub fn download_urls(req_path: &str) -> (urls: Vec<String>)
    ensures
        exists|id: u32| texts(urls@) == #[trigger] candidate_urls_of(req_path@, id),
{
    let id = random_id();
    candidate_urls(req_path, id)
}

} // verus!
