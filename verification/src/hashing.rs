//! Content hashing: SHA-256 digests (named, computed by the digest
//! crate) and their lower-case hexadecimal rendering (fully
//! specified).

use vstd::prelude::*;

use sha2::Digest;

use crate::text::spec_ascii_chars;

verus! {

/// The SHA-256 digest of a byte sequence.
pub uninterp spec fn sha256_of(bytes: Seq<u8>) -> Seq<u8>;

/// Relies on `sha2::Sha256::digest`: the digest depends on the bytes
/// alone and is 32 bytes long.
#[verifier::external_body]
pub fn sha256(bytes: &[u8]) -> (r: Vec<u8>)
    ensures
        r@ == sha256_of(bytes@),
        r@.len() == 32,
{
    sha2::Sha256::digest(bytes).to_vec()
}

/// The lower-case hexadecimal digit for a value below 16.
pub open spec fn spec_hex_digit(n: u8) -> u8 {
    if n < 10 {
        (48 + n) as u8
    } else {
        (87 + n) as u8
    }
}

/// The lower-case hexadecimal rendering of a byte sequence: two digits
/// per byte, high nibble first.
pub open spec fn spec_hex_bytes(s: Seq<u8>) -> Seq<u8> {
    Seq::new(
        s.len() * 2,
        |i: int|
            if i % 2 == 0 {
                spec_hex_digit(s[i / 2] / 16)
            } else {
                spec_hex_digit(s[i / 2] % 16)
            },
    )
}

/// Relies on `hex::encode`: two lower-case hexadecimal digits per
/// byte, high nibble first.
#[verifier::external_body]
pub fn hex_lower(bytes: &[u8]) -> (r: String)
    ensures
        r@ == spec_ascii_chars(spec_hex_bytes(bytes@)),
{
    hex::encode(bytes)
}

/// The hexadecimal rendering of a SHA-256 digest, as characters.
pub open spec fn spec_sha256_hex(bytes: Seq<u8>) -> Seq<char> {
    spec_ascii_chars(spec_hex_bytes(sha256_of(bytes)))
}

/// The content address of a byte sequence: the SHA-256 digest in
/// lower-case hexadecimal.
pub fn sha256_hex(bytes: &[u8]) -> (r: String)
    ensures
        r@ == spec_sha256_hex(bytes@),
{
    let digest = sha256(bytes);
    hex_lower(digest.as_slice())
}

} // verus!
