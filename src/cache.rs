//! Naming of the per-repository cache store.
use vstd::prelude::*;
use sha1::Digest;

verus! {

/// The lower-case hexadecimal SHA-1 digest of the UTF-8 encoding of a text.
pub uninterp spec fn sha1_hex_of(text: Seq<char>) -> Seq<char>;

/// Relies on `sha1::Sha1::digest` and the `LowerHex` formatting of its
/// output: the digest of the text's bytes, as lower-case hexadecimal.
#[verifier::external_body]
fn sha1_hex(text: &str) -> (r: String)
    ensures
        r@ == sha1_hex_of(text@),
{
    format!("{:x}", sha1::Sha1::digest(text.as_bytes()))
}

/// The name of the cache file of a repository: the digest of its root path,
/// with the `.sqlite` extension.
pub fn cache_file_name(repo_root: &str) -> (r: String)
    ensures
        r@ == sha1_hex_of(repo_root@) + ".sqlite"@,
{
    let mut r = sha1_hex(repo_root);
    r.append(".sqlite");
    r
}

/// The name of the cache file for a digest that was already computed.
pub fn cache_file_name_from_digest(digest_hex: &str) -> (r: String)
    ensures
        r@ == digest_hex@ + ".sqlite"@,
{
    let mut r = String::from_str(digest_hex);
    r.append(".sqlite");
    r
}

} // verus!
