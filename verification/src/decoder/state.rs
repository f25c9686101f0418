//! The outcome of a read.

use vstd::prelude::*;

verus! {

/// What the caller of a read is to do next.
#[derive(Debug, Clone, Copy, PartialEq, Eq, Structural)]
pub enum ReadState {
    /// Nothing was produced: the decoder needs more input, or to be told that
    /// there is none left.
    NeedsWrite,
    /// This many decompressed bytes were produced.
    Read(usize),
    /// The stream has been decoded to its end.
    Eof,
}

} // verus!
