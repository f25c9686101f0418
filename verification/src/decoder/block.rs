//! The block decoder, as the [`Decoder`](super::Decoder) sees it.
//!
//! Decoding a block's contents is the caller's business. The decoder follows
//! the state of the caller's block decoder, tells the caller when to run it,
//! and is told what each run did.

use vstd::prelude::*;

verus! {

/// The state of the block decoder between two runs.
#[derive(Debug, Clone, Copy, PartialEq, Eq, Structural)]
pub enum BlockState {
    /// The next block must not be started yet: too little input is buffered.
    NotReady,
    /// Enough input is buffered to start the next block safely.
    ReadyForRead,
    /// The block decoder is handing out the decompressed bytes of a block.
    Reading,
}

/// What one run of the block decoder did.
///
/// The run was given a bit cursor over the decoder's buffered input and a
/// buffer to fill.
#[derive(Debug, Clone, Copy, PartialEq, Eq, Structural)]
pub struct BlockOutcome {
    /// The number of decompressed bytes that the run put into the buffer.
    pub read: usize,
    /// The position of the bit cursor after the run, in bits from the front
    /// of the buffered input.
    pub position: u64,
    /// The state in which the run left the block decoder.
    pub state: BlockState,
}

/// The reasons for which a block is rejected.
#[derive(Debug, Clone, Copy, PartialEq, Eq, Structural)]
pub enum BlockError {
    /// The bit stream does not have the shape of a block.
    InvalidBitstream,
    /// The block's symbol tables are invalid.
    InvalidTables,
    /// The decompressed bytes do not match the block's checksum.
    ChecksumMismatch,
    /// The input ended inside the block.
    Truncated,
}

} // verus!
