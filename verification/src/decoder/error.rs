//! The errors of the [`Decoder`](super::Decoder).

use vstd::prelude::*;
use crate::decoder::block::BlockError;
use crate::header::HeaderError;

verus! {

/// An error met while decoding a stream. It ends the stream: corrupt bzip2
/// data cannot be recovered by parsing it again.
#[derive(Debug, Clone, Copy, PartialEq, Eq, Structural)]
pub enum DecoderError {
    /// The stream header was rejected.
    Header(HeaderError),
    /// A block was rejected.
    Block(BlockError),
}

} // verus!
