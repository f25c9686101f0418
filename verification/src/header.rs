//! The stream header, as far as the decoder depends on it.
//!
//! A bzip2 stream opens with a fixed prefix of [`HEADER_SIZE`] bytes: a magic
//! number and a size class. Parsing that prefix is the caller's business. What
//! the decoder keeps of it is the bound that the size class puts on a block.

use vstd::prelude::*;

verus! {

/// The number of bytes in the stream header.
pub const HEADER_SIZE: usize = 4;

/// The number of bits in the stream header.
pub const HEADER_BITS: u64 = 32;

/// A parsed stream header.
#[derive(Debug, Clone, Copy, PartialEq, Eq, Structural)]
pub struct Header {
    /// The largest number of bytes that a block of this stream can hold.
    pub max_blocksize: u32,
}

/// The reasons for which a stream header is rejected.
#[derive(Debug, Clone, Copy, PartialEq, Eq, Structural)]
pub enum HeaderError {
    /// The prefix does not open with the bzip2 magic number.
    InvalidSignature,
    /// The size class is not one that bzip2 defines.
    UnsupportedBlockSize,
}

} // verus!
