use vstd::prelude::*;

verus! {

/// Block number of the consensus chain.
pub type BlockNumber = u32;

/// Data that an executor node needs to produce bundles in a slot.
#[derive(PartialEq, Eq, Clone, Debug)]
pub struct OperatorSlotInfo {
    /// Slot number.
    pub slot: u64,
    /// Global challenge of the slot.
    pub global_challenge: [u8; 32],
}

/// A block that was imported, as seen by the domain operator.
#[derive(Clone, Debug)]
pub struct BlockInfo<Hash, Number> {
    /// Hash of the block.
    pub hash: Hash,
    /// Hash of the parent block.
    pub parent_hash: Hash,
    /// Number of the block.
    pub number: Number,
    /// Whether this is the new best block.
    pub is_new_best: bool,
}

/// Notification that a domain block was imported on top of a consensus block.
#[derive(Clone, Debug)]
pub struct DomainBlockImportNotification<Hash, CHash> {
    /// Hash of the imported domain block.
    pub domain_block_hash: Hash,
    /// Hash of the consensus block it was derived from.
    pub consensus_block_hash: CHash,
}

/// Converts a wide block number to the primitive block number; the number must fit.
pub fn to_number_primitive(block_number: u64) -> (r: BlockNumber)
    requires
        block_number <= u32::MAX,
    ensures
        r == block_number,
{
    block_number as u32
}

} // verus!
