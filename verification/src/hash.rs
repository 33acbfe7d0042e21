//! Keccak-256, computed by `alloy`.
use vstd::prelude::*;
use crate::primitives::B256;

verus! {

/// The Keccak-256 digest of `data`, as `alloy::primitives::keccak256`
/// computes it.
pub uninterp spec fn keccak256_digest(data: Seq<u8>) -> Seq<u8>;

/// Calls `alloy::primitives::keccak256` on `data`. The contract claims only
/// that the digest is a function of the bytes hashed (it is named, not
/// restated); the digest's length of 32 bytes comes from the result type.
#[verifier::external_body]
pub(crate) fn keccak256(data: &[u8]) -> (r: B256)
    ensures
        r@ == keccak256_digest(data@),
{
    alloy::primitives::keccak256(data).0
}

} // verus!
