//! The decoder as a mathematical state machine.
//!
//! [`DecoderModel`] is what a [`Decoder`](super::Decoder) is to its callers:
//! the contracts of the decoder's methods are written over it. Each method has
//! a transition here that says what it does.

use vstd::prelude::*;
use crate::block_offsets::{non_decreasing, BlockOffset};
use crate::decoder::block::{BlockOutcome, BlockState};
use crate::decoder::error::DecoderError;
use crate::decoder::event::{Event, Step};
use crate::decoder::state::ReadState;
use crate::header::{Header, HEADER_BITS, HEADER_SIZE};

verus! {

/// The state of a decoder.
#[verifier::ext_equal]
pub struct DecoderModel {
    /// The stream header, once it has been parsed.
    pub header: Option<Header>,
    /// The state of the caller's block decoder.
    pub block: BlockState,
    /// The number of bits at the front of `input` that belong to the past:
    /// the last run of the block decoder ended inside the first byte.
    pub skip_bits: nat,
    /// The compressed bytes that were written and not yet removed.
    pub input: Seq<u8>,
    /// The stream has been decoded to its end.
    pub eof: bool,
    /// The caller has said that no more input will come.
    pub write_eof: bool,
    /// The recorded block offsets, oldest first.
    pub offsets: Seq<BlockOffset>,
    /// The number of bits that were removed from the front of `input` since
    /// the stream began.
    pub total_bits_consumed: nat,
    /// The number of decompressed bytes handed to the caller so far.
    pub decompressed_bytes_read: nat,
    /// The offset of the block that is being read has been recorded.
    pub recorded: bool,
}

impl DecoderModel {
    /// The decoder of a stream of which nothing has been seen yet.
    pub open spec fn initial() -> Self {
        DecoderModel {
            header: None,
            block: BlockState::NotReady,
            skip_bits: 0,
            input: Seq::empty(),
            eof: false,
            write_eof: false,
            offsets: Seq::empty(),
            total_bits_consumed: 0,
            decompressed_bytes_read: 0,
            recorded: false,
        }
    }

    /// The number of compressed bits, counted from the start of the stream,
    /// that the decoder is done with for good.
    pub open spec fn committed_bits(self) -> nat {
        self.total_bits_consumed + self.skip_bits
    }

    /// What holds of every decoder between two calls.
    pub open spec fn wf(self) -> bool {
        &&& self.skip_bits < 8
        &&& self.skip_bits <= 8 * self.input.len()
        &&& self.total_bits_consumed % 8 == 0
        &&& match self.header {
            None => {
                &&& self.block is NotReady
                &&& self.skip_bits == 0
                &&& self.total_bits_consumed == 0
                &&& self.decompressed_bytes_read == 0
                &&& !self.eof
                &&& !self.recorded
                &&& self.offsets.len() == 0
            },
            Some(_) => self.total_bits_consumed >= HEADER_BITS,
        }
        &&& non_decreasing(self.offsets)
        &&& forall|i: int|
            0 <= i < self.offsets.len() ==> {
                &&& HEADER_BITS <= (#[trigger] self.offsets[i]).compressed_bit_offset
                    <= self.committed_bits()
                &&& self.offsets[i].decompressed_byte_offset <= self.decompressed_bytes_read
            }
    }

    /// The state after `bytes` were written. An empty write says that no more
    /// input will come; any other write appends to the buffered input.
    pub open spec fn write(self, bytes: Seq<u8>) -> Self {
        if bytes.len() > 0 {
            DecoderModel { input: self.input + bytes, ..self }
        } else {
            DecoderModel { write_eof: true, ..self }
        }
    }

    /// The state after the recorded offsets were cleared. Nothing else
    /// changes: not the counters, and not the mark that the current block's
    /// offset has been recorded.
    pub open spec fn clear_block_offsets(self) -> Self {
        DecoderModel { offsets: Seq::empty(), ..self }
    }

    /// Whether the next block can be started safely: either no more input
    /// will come, or a block of the largest size that the header allows is
    /// buffered beyond the bytes that hold the skipped bits.
    pub open spec fn can_start_block(self) -> bool {
        match self.header {
            None => false,
            Some(header) => self.write_eof || self.input.len() >= self.skip_bits / 8
                + header.max_blocksize,
        }
    }

    /// What the decoder does when asked for output: the state it goes to, and
    /// what it asks of the caller.
    pub open spec fn poll(self) -> (Self, Step) {
        match self.header {
            None => if self.input.len() >= HEADER_SIZE {
                (self, Step::ParseHeader(self.input[0], self.input[1], self.input[2], self.input[3]))
            } else {
                (self, Step::Done(ReadState::NeedsWrite))
            },
            Some(_) => if self.eof {
                (self, Step::Done(ReadState::Eof))
            } else if self.block is NotReady {
                if self.can_start_block() {
                    (
                        DecoderModel { block: BlockState::ReadyForRead, ..self },
                        Step::DecodeBlock {
                            state: BlockState::ReadyForRead,
                            skip_bits: self.skip_bits as usize,
                        },
                    )
                } else {
                    (self, Step::Done(ReadState::NeedsWrite))
                }
            } else {
                (self, Step::DecodeBlock { state: self.block, skip_bits: self.skip_bits as usize })
            },
        }
    }

    /// The state after the stream header was parsed: the header bytes leave
    /// the buffered input and count as consumed, and a block decoder for the
    /// stream stands by.
    pub open spec fn install_header(self, header: Header) -> Self {
        DecoderModel {
            header: Some(header),
            block: BlockState::NotReady,
            input: self.input.subrange(HEADER_SIZE as int, self.input.len() as int),
            total_bits_consumed: self.total_bits_consumed + HEADER_BITS as nat,
            ..self
        }
    }

    /// Whether a run of the block decoder with this outcome starts a block
    /// whose offset is still to be recorded.
    pub open spec fn records(self, outcome: BlockOutcome) -> bool {
        &&& self.block is ReadyForRead
        &&& outcome.state is Reading
        &&& !self.recorded
    }

    /// The recorded offsets after a run of the block decoder with this
    /// outcome. A block that starts is recorded where the run began: at the
    /// bits committed so far, and at the bytes read so far.
    pub open spec fn offsets_after(self, outcome: BlockOutcome) -> Seq<BlockOffset> {
        if self.records(outcome) {
            self.offsets.push(
                BlockOffset {
                    compressed_bit_offset: self.committed_bits() as u64,
                    decompressed_byte_offset: self.decompressed_bytes_read as u64,
                },
            )
        } else {
            self.offsets
        }
    }

    /// The state after a run of the block decoder, on a buffer of `buf_len`
    /// bytes, with this outcome, and the outcome of the read.
    ///
    /// A run that produced nothing commits nothing. On a buffer with room it
    /// ends the stream if the block decoder was already reading when the run
    /// began; if it was only ready, it had too little input to start.
    ///
    /// A run that produced bytes commits the bits up to the cursor: the
    /// whole bytes leave the buffered input, and the bits that remain are
    /// skipped by the next run. If the run finished the block, the next block
    /// to start will be recorded.
    pub open spec fn settle(self, buf_len: usize, outcome: BlockOutcome) -> (Self, ReadState) {
        let recorded = self.recorded || self.records(outcome);
        if outcome.read == 0 {
            (
                DecoderModel {
                    block: outcome.state,
                    offsets: self.offsets_after(outcome),
                    recorded,
                    eof: buf_len > 0 && self.block is Reading,
                    ..self
                },
                ReadState::NeedsWrite,
            )
        } else {
            (
                DecoderModel {
                    block: outcome.state,
                    offsets: self.offsets_after(outcome),
                    recorded: recorded && !(outcome.state is NotReady),
                    decompressed_bytes_read: self.decompressed_bytes_read + outcome.read as nat,
                    input: self.input.subrange(outcome.position as int / 8, self.input.len() as int),
                    total_bits_consumed: self.total_bits_consumed + 8 * (outcome.position as nat
                        / 8),
                    skip_bits: outcome.position as nat % 8,
                    ..self
                },
                ReadState::Read(outcome.read),
            )
        }
    }

    /// Whether `event` can come at this point of the conversation, and, for
    /// the outcome of a run of the block decoder on a buffer of `buf_len`
    /// bytes, whether such a run can have had it.
    ///
    /// A header is parsed once, when its bytes are there. The block decoder
    /// runs only after [`Step::DecodeBlock`]. A run fills no more than the
    /// buffer, and its cursor ends between the skipped bits and the end of the
    /// buffered input. The counters have room for what the run adds to them.
    pub open spec fn accepts(self, buf_len: usize, event: Event) -> bool {
        match event {
            Event::Poll => true,
            Event::HeaderParsed(_) => self.header is None && self.input.len() >= HEADER_SIZE,
            Event::BlockDecoded(result) => {
                &&& self.header is Some
                &&& !self.eof
                &&& !(self.block is NotReady)
                &&& match result {
                    Ok(outcome) => {
                        &&& outcome.read <= buf_len
                        &&& self.skip_bits <= outcome.position <= 8 * self.input.len()
                        &&& self.total_bits_consumed + outcome.position <= u64::MAX
                        &&& self.decompressed_bytes_read + outcome.read <= u64::MAX
                    },
                    Err(_) => true,
                }
            },
        }
    }

    /// One step of a read: the state that `event` leads to, and the decoder's
    /// answer.
    ///
    /// An error of the header parser or of the block decoder is handed on as
    /// it is, and the state stays as it was.
    pub open spec fn read(self, buf_len: usize, event: Event) -> (Self, Result<
        Step,
        DecoderError,
    >) {
        match event {
            Event::Poll => (self.poll().0, Ok(self.poll().1)),
            Event::HeaderParsed(Ok(header)) => {
                let installed = self.install_header(header);
                (installed.poll().0, Ok(installed.poll().1))
            },
            Event::HeaderParsed(Err(error)) => (self, Err(DecoderError::Header(error))),
            Event::BlockDecoded(Ok(outcome)) => (
                self.settle(buf_len, outcome).0,
                Ok(Step::Done(self.settle(buf_len, outcome).1)),
            ),
            Event::BlockDecoded(Err(error)) => (self, Err(DecoderError::Block(error))),
        }
    }

    /// Writing keeps a decoder well formed.
    pub proof fn lemma_write_wf(self, bytes: Seq<u8>)
        requires
            self.wf(),
        ensures
            self.write(bytes).wf(),
    {
    }

    /// Clearing the recorded offsets keeps a decoder well formed.
    pub proof fn lemma_clear_block_offsets_wf(self)
        requires
            self.wf(),
        ensures
            self.clear_block_offsets().wf(),
    {
    }

    /// Every step of a read keeps a decoder well formed.
    pub proof fn lemma_read_wf(self, buf_len: usize, event: Event)
        requires
            self.wf(),
            self.accepts(buf_len, event),
        ensures
            self.read(buf_len, event).0.wf(),
    {
        match event {
            Event::Poll => {},
            Event::HeaderParsed(Ok(header)) => {},
            Event::HeaderParsed(Err(_)) => {},
            Event::BlockDecoded(Ok(outcome)) => {
                let next = self.settle(buf_len, outcome).0;
                assert forall|i: int, j: int|
                    #![trigger next.offsets[i], next.offsets[j]]
                    0 <= i <= j < next.offsets.len() implies {
                    &&& next.offsets[i].compressed_bit_offset
                        <= next.offsets[j].compressed_bit_offset
                    &&& next.offsets[i].decompressed_byte_offset
                        <= next.offsets[j].decompressed_byte_offset
                } by {
                    if j < self.offsets.len() {
                        assert(next.offsets[i] == self.offsets[i]);
                        assert(next.offsets[j] == self.offsets[j]);
                    } else if i < self.offsets.len() {
                        assert(next.offsets[i] == self.offsets[i]);
                    }
                }
            },
            Event::BlockDecoded(Err(_)) => {},
        }
    }
}

} // verus!
