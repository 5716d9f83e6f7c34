//! The content hash by which a universe is identified.

use frame_support::sp_runtime::traits::BlakeTwo256;
use vstd::prelude::*;

verus! {

/// The identifier of a universe: the 32 bytes of its content hash.
pub type UniverseId = [u8; 32];

/// The Blake2 256-bit hash of the record made of a universe's width, height,
/// cells and owner, in this order, in its SCALE encoding.
pub uninterp spec fn content_hash(width: nat, height: nat, cells: Seq<u8>, owner: Seq<u8>) -> Seq<u8>;

/// Hashes the record (`width`, `height`, `cells`, `owner`).
///
/// This makes one call of `sp_runtime::traits::Hash::hash_of`, as
/// `BlakeTwo256` implements it, on the tuple of the four fields, and hands
/// out the bytes of the `H256` that comes back. `hash_of` encodes its
/// argument with SCALE and hashes the bytes with Blake2b at 32 bytes of
/// output, so the result depends on the four values alone. The encoder
/// writes the length of `cells` as a compact `u32` and panics on a longer
/// vector, which is why such a vector is not taken. Nothing is proved of the
/// result: the contract only gives it its name.
#[verifier::external_body]
pub(crate) fn hash_of_record(
    width: u32,
    height: u32,
    cells: &Vec<u8>,
    owner: &[u8; 32],
) -> (id: UniverseId)
    requires
        cells@.len() <= u32::MAX,
    ensures
        id@ == content_hash(width as nat, height as nat, cells@, owner@),
{
    <BlakeTwo256 as frame_support::sp_runtime::traits::Hash>::hash_of(
        &(width, height, cells, owner),
    ).0
}

} // verus!
