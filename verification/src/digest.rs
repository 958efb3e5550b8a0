//! SHA-256 digests and their lowercase hexadecimal text.

use vstd::prelude::*;
use vstd::utf8::encode_utf8;
use sha2::Digest as _;
use crate::text::{hex_lower, hex_lower_exec, string_of};

verus! {

/// The SHA-256 digest of a byte sequence.
pub uninterp spec fn sha256_of(bytes: Seq<u8>) -> Seq<u8>;

/// `Sha256::digest`: the 32-byte SHA-256 digest of the input.
#[verifier::external_body]
fn sha256_bytes(bytes: &[u8]) -> (r: Vec<u8>)
    ensures
        r@ == sha256_of(bytes@),
        r@.len() == 32,
{
    sha2::Sha256::digest(bytes).to_vec()
}

/// The lowercase hexadecimal SHA-256 of a byte sequence.
pub open spec fn sha256_hex_of(bytes: Seq<u8>) -> Seq<char> {
    hex_lower(sha256_of(bytes))
}

/// Lowercase hexadecimal SHA-256 of bytes.
pub fn sha256_hex(bytes: &[u8]) -> (r: String)
    ensures
        r@ == sha256_hex_of(bytes@),
        r@.len() == 64,
{
    let digest = sha256_bytes(bytes);
    let hex = hex_lower_exec(&digest);
    string_of(&hex)
}

/// Lowercase hexadecimal SHA-256 of the UTF-8 encoding of a text.
pub fn sha256_text(text: &str) -> (r: String)
    ensures
        r@ == sha256_hex_of(encode_utf8(text@)),
        r@.len() == 64,
{
    sha256_hex(text.as_bytes())
}

} // verus!
