//! Block offset tracking for bzip2 streams.
//!
//! A [`BlockOffset`] says where a block begins, both in the compressed bit
//! stream and in the decompressed output. A [`BlockOffsetCollector`] keeps the
//! offsets in the order in which the blocks were found.

use vstd::prelude::*;

verus! {

/// A mapping from compressed position to decompressed position.
#[derive(Debug, Clone, Copy, PartialEq, Eq, Structural)]
pub struct BlockOffset {
    /// Bit offset in the compressed stream where this block starts.
    pub compressed_bit_offset: u64,
    /// Byte offset in the decompressed stream where this block starts.
    pub decompressed_byte_offset: u64,
}

/// Neither coordinate ever decreases along `offsets`.
pub open spec fn non_decreasing(offsets: Seq<BlockOffset>) -> bool {
    forall|i: int, j: int|
        #![trigger offsets[i], offsets[j]]
        0 <= i <= j < offsets.len() ==> {
            &&& offsets[i].compressed_bit_offset <= offsets[j].compressed_bit_offset
            &&& offsets[i].decompressed_byte_offset <= offsets[j].decompressed_byte_offset
        }
}

/// Along `offsets` the compressed bit offset increases strictly, so that no
/// two blocks start at the same bit, and the decompressed byte offset never
/// decreases.
pub open spec fn ascending(offsets: Seq<BlockOffset>) -> bool {
    forall|i: int, j: int|
        #![trigger offsets[i], offsets[j]]
        0 <= i < j < offsets.len() ==> {
            &&& offsets[i].compressed_bit_offset < offsets[j].compressed_bit_offset
            &&& offsets[i].decompressed_byte_offset <= offsets[j].decompressed_byte_offset
        }
}

/// Collects block offsets during decompression.
#[derive(Debug, Clone)]
pub struct BlockOffsetCollector {
    offsets: Vec<BlockOffset>,
}

impl View for BlockOffsetCollector {
    type V = Seq<BlockOffset>;

    /// The recorded offsets, oldest first.
    closed spec fn view(&self) -> Seq<BlockOffset> {
        self.offsets@
    }
}

impl BlockOffsetCollector {
    /// Create a new, empty offset collector.
    pub fn new() -> (collector: Self)
        ensures
            collector@ == Seq::<BlockOffset>::empty(),
    {
        Self { offsets: Vec::new() }
    }

    /// Record a block offset after all those recorded so far.
    pub fn record(&mut self, compressed_bit_offset: u64, decompressed_byte_offset: u64)
        ensures
            final(self)@ == old(self)@.push(
                (BlockOffset { compressed_bit_offset, decompressed_byte_offset }),
            ),
    {
        self.offsets.push(BlockOffset { compressed_bit_offset, decompressed_byte_offset });
    }

    /// Get all recorded block offsets.
    pub fn offsets(&self) -> (offsets: &[BlockOffset])
        ensures
            offsets@ == self@,
    {
        self.offsets.as_slice()
    }

    /// Clear all recorded offsets.
    pub fn clear(&mut self)
        ensures
            final(self)@ == Seq::<BlockOffset>::empty(),
    {
        self.offsets.clear();
    }

    /// Get the number of blocks recorded.
    pub fn len(&self) -> (len: usize)
        ensures
            len == self@.len(),
    {
        self.offsets.len()
    }

    /// Check if no blocks have been recorded.
    pub fn is_empty(&self) -> (empty: bool)
        ensures
            empty <==> self@.len() == 0,
    {
        self.offsets.len() == 0
    }
}

impl Default for BlockOffsetCollector {
    fn default() -> (collector: Self)
        ensures
            collector@ == Seq::<BlockOffset>::empty(),
    {
        Self::new()
    }
}

} // verus!
