//! The conversation between the [`Decoder`](super::Decoder) and its caller.
//!
//! A read is a short exchange. The caller opens it with [`Event::Poll`]. The
//! decoder answers with a [`Step`]: either the read is done, or the caller is
//! to parse the header or to run the block decoder and to report the result
//! as the next [`Event`].

use vstd::prelude::*;
use crate::decoder::block::{BlockError, BlockOutcome, BlockState};
use crate::decoder::state::ReadState;
use crate::header::{Header, HeaderError};

verus! {

/// What the caller tells the decoder.
#[derive(Debug, Clone, Copy, PartialEq, Eq)]
pub enum Event {
    /// The caller asks for decompressed bytes.
    Poll,
    /// The caller has parsed the header bytes of [`Step::ParseHeader`].
    HeaderParsed(Result<Header, HeaderError>),
    /// The caller has run the block decoder as [`Step::DecodeBlock`] asked.
    BlockDecoded(Result<BlockOutcome, BlockError>),
}

/// What the decoder asks of the caller.
#[derive(Debug, Clone, Copy, PartialEq, Eq, Structural)]
pub enum Step {
    /// Parse these bytes, the first of the stream, as its header, and report
    /// [`Event::HeaderParsed`].
    ParseHeader(u8, u8, u8, u8),
    /// Run the block decoder and report [`Event::BlockDecoded`].
    DecodeBlock {
        /// The state in which the block decoder enters the run.
        state: BlockState,
        /// The number of bits at the front of the buffered input that the bit
        /// cursor must pass over before the run.
        skip_bits: usize,
    },
    /// The read is done, with this outcome.
    Done(ReadState),
}

} // verus!
