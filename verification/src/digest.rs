//! The checksum of a record's payload.

use vstd::prelude::*;

verus! {

/// Number of bytes in a checksum: a 32-byte digest as hexadecimal digits.
pub const HASH_LENGTH: usize = 64;

/// The SHA-256 digest of `data`, written as hexadecimal digits in ASCII.
pub uninterp spec fn sha256_hex(data: Seq<u8>) -> Seq<u8>;

/// Calls `sha256::digest` on a byte slice and hands back the bytes of the
/// string it returns.
///
/// Trusted: the result is the digest of `data` and of nothing else, and it
/// is [`HASH_LENGTH`] bytes long, since the crate renders the 32 bytes of
/// the digest with two hexadecimal digits each.
#[verifier::external_body]
pub(crate) fn digest_hex(data: &[u8]) -> (out: Vec<u8>)
    ensures
        out@ == sha256_hex(data@),
        out@.len() == HASH_LENGTH,
{
    sha256::digest(data).into_bytes()
}

} // verus!
