//! Stable references to blocks: a strand index paired with the block's
//! ordinal position within that strand.

use vstd::prelude::*;

verus! {

/// Identifies one block: the strand it belongs to and its ordinal position
/// within that strand.
#[derive(Debug, Clone, Copy, PartialEq, Eq, Hash, Structural)]
pub struct BlockId {
    /// Position of the owning strand in the enumeration order of strands.
    pub strand_id: usize,
    /// Ordinal position of the block within its strand.
    pub block_index: usize,
}

impl BlockId {
    /// Packs a strand index and a block ordinal into a `BlockId`.
    pub fn new(strand_id: usize, block_index: usize) -> (r: BlockId)
        ensures
            r == (BlockId { strand_id, block_index }),
    {
        BlockId { strand_id, block_index }
    }
}

} // verus!
