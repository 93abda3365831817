use vstd::prelude::*;
use crate::text::{hex_bytes, hex_of_bytes, string_from_chars};

verus! {

/// The MD5 digest of a byte sequence.
pub uninterp spec fn md5_digest(data: Seq<u8>) -> Seq<u8>;

/// The SHA-256 digest of a byte sequence.
pub uninterp spec fn sha256_digest(data: Seq<u8>) -> Seq<u8>;

/// Calls `md5::compute`: the 16 digest bytes of `data`.
#[verifier::external_body]
fn md5_bytes(data: &[u8]) -> (r: Vec<u8>)
    ensures
        r@ == md5_digest(data@),
        r@.len() == 16,
{
    md5::compute(data).0.to_vec()
}

/// Calls `Sha256::digest` of the sha2 crate: the 32 digest bytes of `data`.
#[verifier::external_body]
fn sha256_bytes(data: &[u8]) -> (r: Vec<u8>)
    ensures
        r@ == sha256_digest(data@),
        r@.len() == 32,
{
    <sha2::Sha256 as sha2::Digest>::digest(data).to_vec()
}

/// MD5 of `data` as lowercase hex (`format!("{:x}", md5::compute(data))`).
pub fn md5_hex(data: &[u8]) -> (r: String)
    ensures
        r@ == hex_bytes(md5_digest(data@)),
{
    let d = md5_bytes(data);
    let h = hex_of_bytes(&d);
    string_from_chars(&h)
}

/// SHA-256 of `data` as lowercase hex.
pub fn sha256_hex(bytes: &[u8]) -> (r: String)
    ensures
        r@ == hex_bytes(sha256_digest(bytes@)),
{
    let d = sha256_bytes(bytes);
    let h = hex_of_bytes(&d);
    string_from_chars(&h)
}

}
