use vstd::prelude::*;

verus! {

/// A 32-byte content hash: action hashes, block hashes, epoch ids, data ids,
/// code hashes.
#[derive(Clone, Copy, Debug, PartialEq, Eq)]
pub struct CryptoHash(pub [u8; 32]);

impl CryptoHash {
    pub open spec fn view(&self) -> Seq<u8> {
        self.0@
    }
}

/// The id that near-primitives derives from a protocol version, an action hash,
/// the previous and the last block hash, and the index of the id within the action.
pub uninterp spec fn data_id_of(
    protocol_version: u32,
    action_hash: Seq<u8>,
    prev_block_hash: Seq<u8>,
    last_block_hash: Seq<u8>,
    index: nat,
) -> Seq<u8>;

/// Relies on near_primitives::utils::create_receipt_id_from_action_hash: a hash
/// of its arguments alone, composed as the protocol version selects.
#[verifier::external_body]
pub(crate) fn create_data_id(
    protocol_version: u32,
    action_hash: &CryptoHash,
    prev_block_hash: &CryptoHash,
    last_block_hash: &CryptoHash,
    index: u64,
) -> (r: CryptoHash)
    ensures
        r@ == data_id_of(
            protocol_version,
            action_hash@,
            prev_block_hash@,
            last_block_hash@,
            index as nat,
        ),
{
    let id = near_primitives::utils::create_receipt_id_from_action_hash(
        protocol_version,
        &near_primitives::hash::CryptoHash(action_hash.0),
        &near_primitives::hash::CryptoHash(prev_block_hash.0),
        &near_primitives::hash::CryptoHash(last_block_hash.0),
        index as usize,
    );
    CryptoHash(id.0)
}

} // verus!
