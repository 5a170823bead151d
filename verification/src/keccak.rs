//! The Keccak-256 hash, as computed by the `tiny_keccak` crate.

use vstd::prelude::*;

verus! {

/// The Keccak-256 digest of `data`.
pub uninterp spec fn keccak256_digest(data: Seq<u8>) -> Seq<u8>;

/// `tiny_keccak::keccak256`: the 32-byte Keccak-256 digest of `data`. Nothing is
/// proved of it; the digest is known to the library only by its name.
#[verifier::external_body]
pub(crate) fn keccak256(data: &[u8]) -> (digest: [u8; 32])
    ensures
        digest@ == keccak256_digest(data@),
{
    tiny_keccak::keccak256(data)
}

} // verus!
