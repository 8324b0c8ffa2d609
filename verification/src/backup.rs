//! Names for snapshots of source text: a time stamp, a short content hash and
//! the extension of the language.

use crate::text::str_equal;
use vstd::prelude::*;
use vstd::string::*;

verus! {

/// The SHA-256 digest of `data`.
pub uninterp spec fn sha256(data: Seq<u8>) -> Seq<u8>;

/// Hashes with `sha2::Sha256` through `Digest::digest`. Trusted: the digest
/// depends on the bytes alone and is 32 bytes long.
#[verifier::external_body]
fn sha256_digest(data: &[u8]) -> (r: Vec<u8>)
    ensures
        r@ == sha256(data@),
        r@.len() == 32,
{
    <sha2::Sha256 as sha2::Digest>::digest(data).to_vec()
}

/// Reads the clock with `chrono::Utc::now` and writes the moment as year,
/// month, day, an underscore, hour, minute and second. Trusted, with nothing
/// claimed of the text: it depends on the time of the call.
#[verifier::external_body]
fn clock_stamp() -> (r: String) {
    chrono::Utc::now().format("%Y%m%d_%H%M%S").to_string()
}

/// The number of digest bytes that a snapshot's name shows.
pub const HASH_PREFIX_BYTES: usize = 4;

/// The lower-case hexadecimal digit of a value below 16.
pub open spec fn hex_digit(n: int) -> char {
    if n < 10 {
        (48 + n) as char
    } else {
        (87 + n) as char
    }
}

/// The bytes `data` in lower-case hexadecimal, two digits each.
pub open spec fn hex(data: Seq<u8>) -> Seq<char>
    decreases data.len(),
{
    if data.len() == 0 {
        Seq::empty()
    } else {
        hex(data.drop_last()) + seq![
            hex_digit(data.last() as int / 16),
            hex_digit(data.last() as int % 16),
        ]
    }
}

/// The hexadecimal form of the first `HASH_PREFIX_BYTES` bytes of a digest,
/// or of all of it when it is shorter.
pub open spec fn short_hash(digest: Seq<u8>) -> Seq<char> {
    if digest.len() <= HASH_PREFIX_BYTES {
        hex(digest)
    } else {
        hex(digest.take(HASH_PREFIX_BYTES as int))
    }
}

/// The file extension of a language; `txt` for a language without one.
pub open spec fn extension_of(language: Seq<char>) -> Seq<char> {
    if language == "python"@ {
        "py"@
    } else if language == "javascript"@ {
        "js"@
    } else if language == "typescript"@ {
        "ts"@
    } else if language == "rust"@ {
        "rs"@
    } else if language == "go"@ {
        "go"@
    } else if language == "java"@ {
        "java"@
    } else {
        "txt"@
    }
}

/// The name of the snapshot of `content` taken at `stamp`.
pub open spec fn backup_name(stamp: Seq<char>, content: Seq<char>, language: Seq<char>) -> Seq<
    char,
> {
    "backup_"@ + stamp + "_"@ + short_hash(sha256(vstd::utf8::encode_utf8(content))) + "."@
        + extension_of(language)
}

fn digit(n: u8) -> (c: char)
    requires
        n < 16,
    ensures
        c == hex_digit(n as int),
{
    if n < 10 {
        (48 + n) as char
    } else {
        (87 + n) as char
    }
}

/// Writes the first bytes of a digest in lower-case hexadecimal.
pub fn hex_prefix(digest: &Vec<u8>) -> (r: String)
    ensures
        r@ == short_hash(digest@),
{
    let shown: usize = if digest.len() <= HASH_PREFIX_BYTES {
        digest.len()
    } else {
        HASH_PREFIX_BYTES
    };
    let mut out = String::new();
    let mut i: usize = 0;
    while i < shown
        invariant
            i <= shown <= digest.len(),
            out@ == hex(digest@.take(i as int)),
        decreases shown - i,
    {
        let b: u8 = digest[i];
        proof {
            let next = digest@.take(i + 1);
            assert(next.drop_last() =~= digest@.take(i as int));
        }
        out.push(digit(b / 16));
        out.push(digit(b % 16));
        i += 1;
    }
    proof {
        if digest.len() <= HASH_PREFIX_BYTES {
            assert(digest@.take(shown as int) =~= digest@);
        }
    }
    out
}

/// The short hash that names a snapshot of `content`: the first eight
/// hexadecimal digits of its SHA-256 digest.
pub fn generate_hash(content: &str) -> (r: String)
    ensures
        r@ == short_hash(sha256(vstd::utf8::encode_utf8(content@))),
        r@.len() == 8,
{
    let digest = sha256_digest(content.as_bytes());
    proof {
        lemma_hex_len(digest@.take(HASH_PREFIX_BYTES as int));
    }
    hex_prefix(&digest)
}

/// Two digits stand for every byte.
pub proof fn lemma_hex_len(data: Seq<u8>)
    ensures
        hex(data).len() == 2 * data.len(),
    decreases data.len(),
{
    if data.len() > 0 {
        lemma_hex_len(data.drop_last());
    }
}

/// The file extension of `language`.
pub fn get_extension(language: &str) -> (r: &'static str)
    ensures
        r@ == extension_of(language@),
{
    if str_equal(language, "python") {
        "py"
    } else if str_equal(language, "javascript") {
        "js"
    } else if str_equal(language, "typescript") {
        "ts"
    } else if str_equal(language, "rust") {
        "rs"
    } else if str_equal(language, "go") {
        "go"
    } else if str_equal(language, "java") {
        "java"
    } else {
        "txt"
    }
}

/// The name of the snapshot of `content` taken at the moment that `stamp`
/// writes out.
pub fn backup_file_name(stamp: &str, content: &str, language: &str) -> (r: String)
    ensures
        r@ == backup_name(stamp@, content@, language@),
{
    let hash = generate_hash(content);
    let mut name = "backup_".to_owned();
    name.append(stamp);
    name.append("_");
    name.append(hash.as_str());
    name.append(".");
    name.append(get_extension(language));
    name
}

/// The name of a snapshot of `content` taken now.
pub fn next_backup_name(content: &str, language: &str) -> (r: String)
    ensures
        exists|stamp: Seq<char>| r@ == backup_name(stamp, content@, language@),
{
    let stamp = clock_stamp();
    backup_file_name(stamp.as_str(), content, language)
}

} // verus!
