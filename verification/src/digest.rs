//! The Merkle root over a list of leaves.

use vstd::prelude::*;

verus! {

/// The Merkle root that fides computes over `leaves`, as 32 bytes.
pub uninterp spec fn merkle(leaves: Seq<Seq<u8>>) -> Seq<u8>;

/// `fides::merkle_root`: a digest of 32 bytes that depends on the leaves and
/// their order alone. How it hashes and pairs them is not stated here.
#[verifier::external_body]
pub(crate) fn merkle_root(leaves: &Vec<Vec<u8>>) -> (root: [u8; 32])
    ensures
        root@ == merkle(leaves.deep_view()),
{
    fides::merkle_root(leaves)
}

} // verus!
