//! Sequences of calls: the words in which the laws of the decoder are
//! stated.
//!
//! A decoder's life is a sequence of [`Call`]s. [`run`] gives the state that
//! a sequence leads to. The other functions say which sequences are meant:
//! those that can be made at all, and those in which the block decoder
//! behaves as it does on a valid stream.

use vstd::prelude::*;
use crate::decoder::block::{BlockOutcome, BlockState};
use crate::decoder::event::Event;
use crate::decoder::model::DecoderModel;

verus! {

/// A call of one of the methods that change a decoder.
pub enum Call {
    /// A write of these bytes.
    Write(Seq<u8>),
    /// A call that clears the recorded block offsets.
    ClearBlockOffsets,
    /// One step of a read.
    Read { buf_len: usize, event: Event },
}

impl Call {
    /// Whether the call reports what the header parser or the block decoder
    /// did, or clears the recorded offsets: whether it is neither a write nor
    /// a request for output.
    pub open spec fn is_report(self) -> bool {
        match self {
            Call::Write(_) => false,
            Call::Read { buf_len, event: Event::Poll } => false,
            _ => true,
        }
    }
}

impl DecoderModel {
    /// Whether `call` can be made in this state.
    pub open spec fn permits(self, call: Call) -> bool {
        match call {
            Call::Read { buf_len, event } => self.accepts(buf_len, event),
            _ => true,
        }
    }

    /// The state after `call`.
    pub open spec fn apply(self, call: Call) -> Self {
        match call {
            Call::Write(bytes) => self.write(bytes),
            Call::ClearBlockOffsets => self.clear_block_offsets(),
            Call::Read { buf_len, event } => self.read(buf_len, event).0,
        }
    }

    /// Whether a run of the block decoder that begins in this state and has
    /// this outcome starts a block.
    pub open spec fn starts_block(self, outcome: BlockOutcome) -> bool {
        self.block is ReadyForRead && outcome.state is Reading
    }

    /// Whether `outcome` is what a block decoder reports that takes the
    /// blocks of a valid stream one after the other.
    ///
    /// A block decoder that is ready either stays ready and produces nothing,
    /// or starts a block: then it has taken at least one bit from the input
    /// and produced at least one byte. A block decoder that is reading goes
    /// on reading, or finishes the block with a run that produced bytes.
    pub open spec fn orderly(self, outcome: BlockOutcome) -> bool {
        match self.block {
            BlockState::NotReady => true,
            BlockState::ReadyForRead => {
                ||| outcome.state is ReadyForRead && outcome.read == 0
                ||| outcome.state is Reading && outcome.read > 0 && outcome.position
                    > self.skip_bits
            },
            BlockState::Reading => {
                ||| outcome.state is Reading
                ||| outcome.state is NotReady && outcome.read > 0
            },
        }
    }

    /// Whether `call`, if it reports a run of the block decoder, reports an
    /// orderly one.
    pub open spec fn orderly_call(self, call: Call) -> bool {
        match call {
            Call::Read { buf_len, event: Event::BlockDecoded(Ok(outcome)) } => self.orderly(
                outcome,
            ),
            _ => true,
        }
    }

    /// The state after `chunks` were written one after the other.
    pub open spec fn write_all(self, chunks: Seq<Seq<u8>>) -> Self
        decreases chunks.len(),
    {
        if chunks.len() == 0 {
            self
        } else {
            self.write_all(chunks.drop_last()).write(chunks.last())
        }
    }
}

/// The state of a new decoder after `calls`.
pub open spec fn run(calls: Seq<Call>) -> DecoderModel
    decreases calls.len(),
{
    if calls.len() == 0 {
        DecoderModel::initial()
    } else {
        run(calls.drop_last()).apply(calls.last())
    }
}

/// Whether each of `calls` can be made in the state that the calls before it
/// lead to.
pub open spec fn permitted(calls: Seq<Call>) -> bool
    decreases calls.len(),
{
    if calls.len() == 0 {
        true
    } else {
        permitted(calls.drop_last()) && run(calls.drop_last()).permits(calls.last())
    }
}

/// Whether every run of the block decoder that `calls` report is orderly:
/// whether `calls` are the decoding of a valid stream.
pub open spec fn orderly(calls: Seq<Call>) -> bool
    decreases calls.len(),
{
    if calls.len() == 0 {
        true
    } else {
        orderly(calls.drop_last()) && run(calls.drop_last()).orderly_call(calls.last())
    }
}

/// Whether none of `calls` clears the recorded block offsets.
pub open spec fn never_cleared(calls: Seq<Call>) -> bool {
    forall|i: int| 0 <= i < calls.len() ==> !(#[trigger] calls[i] is ClearBlockOffsets)
}

/// The number of blocks that were started in the course of `calls` since the
/// recorded block offsets were last cleared.
pub open spec fn blocks_started(calls: Seq<Call>) -> nat
    decreases calls.len(),
{
    if calls.len() == 0 {
        0
    } else {
        match calls.last() {
            Call::ClearBlockOffsets => 0,
            Call::Read { buf_len, event: Event::BlockDecoded(Ok(outcome)) } => if run(
                calls.drop_last(),
            ).starts_block(outcome) {
                blocks_started(calls.drop_last()) + 1
            } else {
                blocks_started(calls.drop_last())
            },
            _ => blocks_started(calls.drop_last()),
        }
    }
}

/// Those of `calls` that are reports, in their order.
pub open spec fn reports(calls: Seq<Call>) -> Seq<Call>
    decreases calls.len(),
{
    if calls.len() == 0 {
        Seq::empty()
    } else if calls.last().is_report() {
        reports(calls.drop_last()).push(calls.last())
    } else {
        reports(calls.drop_last())
    }
}

/// The number of bytes that were written in the course of `calls`.
pub open spec fn bytes_written(calls: Seq<Call>) -> nat
    decreases calls.len(),
{
    if calls.len() == 0 {
        0
    } else {
        match calls.last() {
            Call::Write(bytes) => bytes_written(calls.drop_last()) + bytes.len(),
            _ => bytes_written(calls.drop_last()),
        }
    }
}

} // verus!
