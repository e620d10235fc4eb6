//! The hash that code is known by.
use crate::primitives::B256;
use vstd::prelude::*;

verus! {

/// The Keccak-256 hash of a byte string.
pub uninterp spec fn keccak_bytes(input: Seq<u8>) -> Seq<u8>;

/// The Keccak-256 hash of a byte string, as the number that its bytes stand for.
pub open spec fn keccak_number(input: Seq<u8>) -> nat {
    crate::bytes::be_value(keccak_bytes(input))
}

/// The bytes of the Keccak-256 hash of `input`.
///
/// Calls `revm::primitives::keccak256`. Trusted: the hash depends on the input alone, and is
/// called `keccak_bytes`. Which bytes they are, is not stated.
#[verifier::external_body]
fn keccak256_array(input: &[u8]) -> (r: [u8; 32])
    ensures
        r@ == keccak_bytes(input@),
{
    revm::primitives::keccak256(input).0
}

/// The Keccak-256 hash of `input`.
pub(crate) fn keccak256(input: &[u8]) -> (r: B256)
    ensures
        r@ == keccak_number(input@),
{
    B256::from_array(keccak256_array(input))
}

} // verus!
