//! The workspace symbol index: a source file is indexed again only when its
//! content changed since it was last indexed.
use vstd::prelude::*;
use vstd::string::*;

verus! {

/// The lowercase hexadecimal SHA-256 digest of the UTF-8 bytes of `text`.
pub uninterp spec fn sha256_hex(text: Seq<char>) -> Seq<char>;

/// `sha2::Sha256::digest` of the text's bytes, written in lowercase
/// hexadecimal.
#[verifier::external_body]
fn source_digest(text: &str) -> (r: String)
    ensures
        r@ == sha256_hex(text@),
{
    format!("{:x}", <sha2::Sha256 as sha2::Digest>::digest(text.as_bytes()))
}

/// The digest under which `source` must be indexed again, or `None` when the
/// index already holds it under that digest.
pub fn index_refresh(source: &str, cached_digest: Option<&str>) -> (r: Option<String>)
    ensures
        (match cached_digest {
            Some(c) => c@ == sha256_hex(source@),
            None => false,
        }) ==> r is None,
        !(match cached_digest {
            Some(c) => c@ == sha256_hex(source@),
            None => false,
        }) ==> (r matches Some(h) && h@ == sha256_hex(source@)),
{
    let digest = source_digest(source);
    match cached_digest {
        Some(c) => {
            if crate::text::str_eq(c, digest.as_str()) {
                None
            } else {
                Some(digest)
            }
        },
        None => Some(digest),
    }
}

} // verus!
