//! bzip2 decoding APIs.

use vstd::prelude::*;
use crate::block_offsets::{BlockOffset, BlockOffsetCollector};
use crate::header::{Header, HEADER_BITS, HEADER_SIZE};
use self::model::DecoderModel;
use self::queue::InputQueue;

pub mod block;
pub mod error;
pub mod event;
pub mod laws;
pub mod model;
pub mod queue;
pub mod state;
pub mod trace;

pub use self::block::{BlockError, BlockOutcome, BlockState};
pub use self::error::DecoderError;
pub use self::event::{Event, Step};
pub use self::state::ReadState;

verus! {

/// A low-level **single-threaded** decoder.
///
/// This decoder does no IO by itself, and it decodes no block by itself.
/// Compressed data is written to it; a read then goes on as far as it can
/// without outside help, and says with a [`Step`] what it needs next: to have
/// the stream header parsed, to have the block decoder run over the buffered
/// input, or nothing, because the read is done. The caller does what is asked
/// and reports the result as the [`Event`] of the next call of
/// [`read`](Decoder::read).
///
/// Along the way the decoder records where each block begins: see
/// [`block_offsets`](Decoder::block_offsets).
pub struct Decoder {
    header: Option<Header>,
    block: BlockState,
    skip_bits: usize,
    in_buf: InputQueue,
    eof: bool,
    write_eof: bool,
    block_offsets: BlockOffsetCollector,
    total_bits_consumed: u64,
    decompressed_bytes_read: u64,
    last_block_recorded: bool,
}

impl View for Decoder {
    type V = DecoderModel;

    closed spec fn view(&self) -> DecoderModel {
        DecoderModel {
            header: self.header,
            block: self.block,
            skip_bits: self.skip_bits as nat,
            input: self.in_buf@,
            eof: self.eof,
            write_eof: self.write_eof,
            offsets: self.block_offsets@,
            total_bits_consumed: self.total_bits_consumed as nat,
            decompressed_bytes_read: self.decompressed_bytes_read as nat,
            recorded: self.last_block_recorded,
        }
    }
}

impl Decoder {
    /// Construct a new [`Decoder`], ready to decompress a new bzip2 file.
    pub fn new() -> (decoder: Self)
        ensures
            decoder@ == DecoderModel::initial(),
            decoder@.wf(),
    {
        Self {
            header: None,
            block: BlockState::NotReady,
            skip_bits: 0,
            in_buf: InputQueue::new(),
            eof: false,
            write_eof: false,
            block_offsets: BlockOffsetCollector::new(),
            total_bits_consumed: 0,
            decompressed_bytes_read: 0,
            last_block_recorded: false,
        }
    }

    /// Write more compressed data into this [`Decoder`].
    ///
    /// An empty `buf` says, once and for all, that no more data will come.
    pub fn write(&mut self, buf: &[u8])
        requires
            old(self)@.wf(),
        ensures
            final(self)@ == old(self)@.write(buf@),
            final(self)@.wf(),
    {
        proof {
            self@.lemma_write_wf(buf@);
        }
        if buf.len() > 0 {
            self.in_buf.extend(buf);
        } else {
            self.write_eof = true;
        }
    }

    /// Get the collected block offsets.
    pub fn block_offsets(&self) -> (offsets: &[BlockOffset])
        ensures
            offsets@ == self@.offsets,
    {
        self.block_offsets.offsets()
    }

    /// Clear recorded block offsets.
    ///
    /// The decoding goes on as if nothing had happened. A block that had
    /// been recorded is not recorded again.
    pub fn clear_block_offsets(&mut self)
        requires
            old(self)@.wf(),
        ensures
            final(self)@ == old(self)@.clear_block_offsets(),
            final(self)@.wf(),
    {
        proof {
            self@.lemma_clear_block_offsets_wf();
        }
        self.block_offsets.clear();
    }

    /// The buffered input as two contiguous slices: the first followed by the
    /// second is all of it, oldest byte first. This is what the bit cursor of
    /// the block decoder runs over.
    pub fn input(&self) -> (slices: (&[u8], &[u8]))
        ensures
            slices.0@ + slices.1@ == self@.input,
    {
        self.in_buf.as_slices()
    }

    /// Whether [`read`](Decoder::read) can be called with this buffer length
    /// and this event.
    pub fn accepts(&self, buf_len: usize, event: &Event) -> (ok: bool)
        requires
            self@.wf(),
        ensures
            ok == self@.accepts(buf_len, *event),
    {
        match event {
            Event::Poll => true,
            Event::HeaderParsed(_) => self.header.is_none() && self.in_buf.len() >= HEADER_SIZE,
            Event::BlockDecoded(result) => {
                if self.header.is_none() || self.eof || self.block == BlockState::NotReady {
                    false
                } else {
                    match result {
                        Ok(outcome) => {
                            let whole: u64 = outcome.position / 8;
                            let len: usize = self.in_buf.len();
                            outcome.read <= buf_len && self.skip_bits as u64 <= outcome.position
                                && (whole < len as u64 || (whole == len as u64 && outcome.position
                                % 8 == 0)) && outcome.position <= u64::MAX
                                - self.total_bits_consumed && outcome.read as u64 <= u64::MAX
                                - self.decompressed_bytes_read
                        },
                        Err(_) => true,
                    }
                }
            },
        }
    }

    /// Go on as far as possible without outside help.
    fn poll(&mut self) -> (step: Step)
        requires
            old(self)@.wf(),
        ensures
            (final(self)@, step) == old(self)@.poll(),
    {
        match self.header {
            None => {
                if self.in_buf.len() >= HEADER_SIZE {
                    Step::ParseHeader(
                        self.in_buf.get(0),
                        self.in_buf.get(1),
                        self.in_buf.get(2),
                        self.in_buf.get(3),
                    )
                } else {
                    Step::Done(ReadState::NeedsWrite)
                }
            },
            Some(header) => {
                if self.eof {
                    Step::Done(ReadState::Eof)
                } else if self.block == BlockState::NotReady {
                    let buffered: u64 = self.in_buf.len() as u64;
                    let minimum: u64 = (self.skip_bits / 8) as u64 + header.max_blocksize as u64;
                    if self.write_eof || buffered >= minimum {
                        self.block = BlockState::ReadyForRead;
                        Step::DecodeBlock {
                            state: BlockState::ReadyForRead,
                            skip_bits: self.skip_bits,
                        }
                    } else {
                        Step::Done(ReadState::NeedsWrite)
                    }
                } else {
                    Step::DecodeBlock { state: self.block, skip_bits: self.skip_bits }
                }
            },
        }
    }

    /// Take the parsed header in, and the header bytes out of the input.
    fn install_header(&mut self, header: Header)
        requires
            old(self)@.wf(),
            old(self)@.header is None,
            old(self)@.input.len() >= HEADER_SIZE,
        ensures
            final(self)@ == old(self)@.install_header(header),
    {
        self.header = Some(header);
        self.block = BlockState::NotReady;
        self.in_buf.drain_front(HEADER_SIZE);
        self.total_bits_consumed += HEADER_BITS;
    }

    /// Do the bookkeeping for one run of the block decoder.
    fn settle(&mut self, buf_len: usize, outcome: BlockOutcome) -> (state: ReadState)
        requires
            old(self)@.wf(),
            old(self)@.accepts(buf_len, Event::BlockDecoded(Ok(outcome))),
        ensures
            (final(self)@, state) == old(self)@.settle(buf_len, outcome),
    {
        let ready_for_read = self.block == BlockState::ReadyForRead;
        let reading = self.block == BlockState::Reading;
        self.block = outcome.state;

        if ready_for_read && outcome.state == BlockState::Reading && !self.last_block_recorded {
            self.block_offsets.record(
                self.total_bits_consumed + self.skip_bits as u64,
                self.decompressed_bytes_read,
            );
            self.last_block_recorded = true;
        }
        if outcome.read == 0 {
            self.eof = buf_len > 0 && reading;
            return ReadState::NeedsWrite;
        }
        self.decompressed_bytes_read += outcome.read as u64;

        let bytes_num: u64 = outcome.position / 8;
        let bits_num: u64 = outcome.position % 8;
        proof {
            self.in_buf.lemma_len_fits();
        }
        self.in_buf.drain_front(bytes_num as usize);
        self.total_bits_consumed += bytes_num * 8;
        self.skip_bits = bits_num as usize;

        if outcome.state == BlockState::NotReady {
            self.last_block_recorded = false;
        }
        assert(self@ =~= old(self)@.settle(buf_len, outcome).0);
        ReadState::Read(outcome.read)
    }

    /// Read more decompressed data from this [`Decoder`], one step at a
    /// time.
    ///
    /// `buf_len` is the length of the buffer that the decompressed bytes go
    /// to. A read starts with [`Event::Poll`]. As long as the answer is not
    /// [`Step::Done`], the caller does what the [`Step`] asks and calls again
    /// with the [`Event`] that reports it. See [`ReadState`] to decide what
    /// to do once the read is done.
    ///
    /// Which events can come when is said by
    /// [`DecoderModel::accepts`], and tested by [`accepts`](Decoder::accepts).
    /// What the step does is said by [`DecoderModel::read`]. It fails exactly
    /// if the header parser or the block decoder failed, and with their
    /// error.
    pub fn read(&mut self, buf_len: usize, event: Event) -> (result: Result<Step, DecoderError>)
        requires
            old(self)@.wf(),
            old(self)@.accepts(buf_len, event),
        ensures
            (final(self)@, result) == old(self)@.read(buf_len, event),
            final(self)@.wf(),
            match event {
                Event::HeaderParsed(Err(error)) => result == Err::<Step, DecoderError>(
                    DecoderError::Header(error),
                ),
                Event::BlockDecoded(Err(error)) => result == Err::<Step, DecoderError>(
                    DecoderError::Block(error),
                ),
                _ => result is Ok,
            },
    {
        proof {
            self@.lemma_read_wf(buf_len, event);
        }
        match event {
            Event::Poll => Ok(self.poll()),
            Event::HeaderParsed(Ok(header)) => {
                self.install_header(header);
                Ok(self.poll())
            },
            Event::HeaderParsed(Err(error)) => Err(DecoderError::Header(error)),
            Event::BlockDecoded(Ok(outcome)) => Ok(Step::Done(self.settle(buf_len, outcome))),
            Event::BlockDecoded(Err(error)) => Err(DecoderError::Block(error)),
        }
    }
}

impl Default for Decoder {
    fn default() -> (decoder: Self)
        ensures
            decoder@ == DecoderModel::initial(),
            decoder@.wf(),
    {
        Self::new()
    }
}

} // verus!
