//! The Keccak-256 digest, computed by the `tiny-keccak` crate.

use vstd::prelude::*;
use tiny_keccak::{Hasher, Keccak};

verus! {

/// The Keccak-256 digest of `input`: 32 bytes that depend on the input alone.
pub uninterp spec fn keccak256_digest(input: Seq<u8>) -> Seq<u8>;

/// `Keccak::v256`, `update` and `finalize`: the Keccak-256 digest of `bytes`,
/// absorbed in one piece and squeezed into 32 bytes.
#[verifier::external_body]
pub(crate) fn keccak256(bytes: &[u8]) -> (digest: [u8; 32])
    ensures
        digest@ == keccak256_digest(bytes@),
{
    let mut output = [0u8; 32];
    let mut hasher = Keccak::v256();
    hasher.update(bytes);
    hasher.finalize(&mut output);
    output
}

} // verus!
