//! SHA-256 over one byte string.

use sha2::Digest;
use sha2::Sha256;
use vstd::prelude::*;

verus! {

/// Width of a SHA-256 digest.
pub const SHA256_BYTES: usize = 32;

/// The SHA-256 digest of a byte string.
pub uninterp spec fn sha256_digest(data: Seq<u8>) -> [u8; 32];

/// The bytes of the SHA-256 digest of a byte string.
pub open spec fn sha256_of(data: Seq<u8>) -> Seq<u8> {
    sha256_digest(data)@
}

/// `sha2::Sha256::digest`: the digest of `data` is a function of the bytes of
/// `data` alone.
#[verifier::external_body]
pub(crate) fn sha256(data: &[u8]) -> (digest: [u8; 32])
    ensures
        digest == sha256_digest(data@),
{
    Sha256::digest(data).into()
}

/// A digest is 32 bytes long.
pub broadcast proof fn lemma_sha256_len(data: Seq<u8>)
    ensures
        (#[trigger] sha256_of(data)).len() == SHA256_BYTES,
{
}

} // verus!
