//! Content hashing of captured file bytes.

use vstd::prelude::*;
use crate::text::hex_fixed;
use vstd::string::StringExecFns;

verus! {

/// What SHA-256 returns for a given byte sequence; the digest depends on
/// the bytes alone.
pub uninterp spec fn sha256_of(bytes: Seq<u8>) -> Seq<u8>;

/// The lower-case hexadecimal encoding of a byte sequence, two digits per
/// byte.
pub open spec fn hex_of_bytes(bytes: Seq<u8>) -> Seq<char>
    decreases bytes.len(),
{
    if bytes.len() == 0 {
        Seq::empty()
    } else {
        hex_of_bytes(bytes.drop_last()) + hex_fixed(bytes.last() as int, 2)
    }
}

/// Relies on `sha2::Sha256`: the 32-byte SHA-256 digest of the bytes.
#[verifier::external_body]
fn sha256_digest(bytes: &Vec<u8>) -> (r: Vec<u8>)
    ensures
        r@ == sha256_of(bytes@),
        r@.len() == 32,
{
    <sha2::Sha256 as sha2::Digest>::digest(bytes).to_vec()
}

/// Relies on `hex::encode`: two lower-case hexadecimal digits for each
/// byte, in order.
#[verifier::external_body]
fn hex_encode(bytes: &Vec<u8>) -> (r: String)
    ensures
        r@ == hex_of_bytes(bytes@),
{
    hex::encode(bytes)
}

/// The stored content hash of a file's bytes: the SHA-256 digest in
/// lower-case hexadecimal behind a scheme prefix.
pub fn calculate_hash(bytes: &Vec<u8>) -> (r: String)
    ensures
        r@ == "sha256:"@ + hex_of_bytes(sha256_of(bytes@)),
{
    let digest = sha256_digest(bytes);
    let hex_digest = hex_encode(&digest);
    let prefix = "sha256:".to_owned();
    prefix.concat(hex_digest.as_str())
}

} // verus!
