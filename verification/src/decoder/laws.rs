//! Laws of the decoder: what holds of whole sequences of calls.
//!
//! The laws are stated over [`DecoderModel`]. They hold of every
//! [`Decoder`](super::Decoder), because the contract of each of its methods
//! says which transition of the model the method makes.
//!
//! Some laws hold whatever the block decoder reports. Those on the order and
//! the number of the recorded offsets hold of valid streams: of sequences of
//! calls that are [`orderly`].

use vstd::prelude::*;
use crate::block_offsets::{ascending, BlockOffset};
use crate::decoder::error::DecoderError;
use crate::decoder::event::{Event, Step};
use crate::decoder::model::DecoderModel;
use crate::decoder::state::ReadState;
use crate::decoder::trace::{
    blocks_started, bytes_written, never_cleared, orderly, permitted, reports, run, Call,
};
use crate::header::HEADER_BITS;

verus! {

// Well-formedness

/// Every call that can be made leaves a well-formed decoder well formed.
proof fn lemma_apply_wf(state: DecoderModel, call: Call)
    requires
        state.wf(),
        state.permits(call),
    ensures
        state.apply(call).wf(),
{
    match call {
        Call::Write(bytes) => state.lemma_write_wf(bytes),
        Call::ClearBlockOffsets => state.lemma_clear_block_offsets_wf(),
        Call::Read { buf_len, event } => state.lemma_read_wf(buf_len, event),
    }
}

/// A decoder is well formed after any sequence of calls that can be made. In
/// particular neither coordinate of the recorded offsets ever decreases, and
/// no block is recorded before the end of the header, nor beyond the bits
/// and bytes that the decoder has dealt with.
pub proof fn lemma_run_wf(calls: Seq<Call>)
    requires
        permitted(calls),
    ensures
        run(calls).wf(),
    decreases calls.len(),
{
    if calls.len() > 0 {
        lemma_run_wf(calls.drop_last());
        lemma_apply_wf(run(calls.drop_last()), calls.last());
    }
}

// The order of the recorded offsets

impl DecoderModel {
    /// The recorded offsets ascend, and each lies before the bits committed
    /// so far.
    spec fn ascends(self) -> bool {
        &&& ascending(self.offsets)
        &&& forall|i: int|
            0 <= i < self.offsets.len() ==> (#[trigger] self.offsets[i]).compressed_bit_offset
                < self.committed_bits()
    }

    /// An orderly call keeps the recorded offsets ascending.
    proof fn lemma_apply_ascends(self, call: Call)
        requires
            self.wf(),
            self.permits(call),
            self.orderly_call(call),
            self.ascends(),
        ensures
            self.apply(call).ascends(),
    {
        let next = self.apply(call);
        match call {
            Call::Read { buf_len, event: Event::BlockDecoded(Ok(outcome)) } => {
                assert forall|i: int, j: int|
                    #![trigger next.offsets[i], next.offsets[j]]
                    0 <= i < j < next.offsets.len() implies {
                    &&& next.offsets[i].compressed_bit_offset
                        < next.offsets[j].compressed_bit_offset
                    &&& next.offsets[i].decompressed_byte_offset
                        <= next.offsets[j].decompressed_byte_offset
                } by {
                    assert(next.offsets[i] == self.offsets[i]);
                    if j < self.offsets.len() {
                        assert(next.offsets[j] == self.offsets[j]);
                    }
                }
                assert forall|i: int| 0 <= i < next.offsets.len() implies (
                #[trigger] next.offsets[i]).compressed_bit_offset < next.committed_bits() by {
                    if i < self.offsets.len() {
                        assert(next.offsets[i] == self.offsets[i]);
                    }
                }
            },
            _ => {},
        }
    }
}

proof fn lemma_run_ascends(calls: Seq<Call>)
    requires
        permitted(calls),
        orderly(calls),
    ensures
        run(calls).ascends(),
    decreases calls.len(),
{
    if calls.len() > 0 {
        lemma_run_wf(calls.drop_last());
        lemma_run_ascends(calls.drop_last());
        run(calls.drop_last()).lemma_apply_ascends(calls.last());
    }
}

/// Along the offsets recorded for a valid stream, the compressed bit offset
/// increases strictly and the decompressed byte offset never decreases.
pub proof fn lemma_offsets_ascend(calls: Seq<Call>)
    requires
        permitted(calls),
        orderly(calls),
    ensures
        ascending(run(calls).offsets),
{
    lemma_run_ascends(calls);
}

// The first recorded offset

impl DecoderModel {
    /// Either no block has been recorded yet, and the decoder stands where
    /// the header ends, or the first recorded block starts there.
    spec fn anchored(self) -> bool {
        if self.offsets.len() == 0 {
            &&& !self.recorded
            &&& !(self.block is Reading)
            &&& self.header is Some ==> self.committed_bits() == HEADER_BITS
                && self.decompressed_bytes_read == 0
        } else {
            self.offsets[0] == (BlockOffset {
                compressed_bit_offset: HEADER_BITS,
                decompressed_byte_offset: 0,
            })
        }
    }

    /// An orderly call that does not clear the offsets keeps the decoder
    /// anchored.
    proof fn lemma_apply_anchored(self, call: Call)
        requires
            self.wf(),
            self.permits(call),
            self.orderly_call(call),
            self.anchored(),
            !(call is ClearBlockOffsets),
        ensures
            self.apply(call).anchored(),
    {
        let next = self.apply(call);
        if self.offsets.len() > 0 {
            assert(next.offsets.len() > 0 && next.offsets[0] == self.offsets[0]);
        }
    }
}

proof fn lemma_run_anchored(calls: Seq<Call>)
    requires
        permitted(calls),
        orderly(calls),
        never_cleared(calls),
    ensures
        run(calls).anchored(),
    decreases calls.len(),
{
    if calls.len() > 0 {
        let front = calls.drop_last();
        assert forall|i: int| 0 <= i < front.len() implies !(
        #[trigger] front[i] is ClearBlockOffsets) by {
            assert(front[i] == calls[i]);
        }
        lemma_run_wf(front);
        lemma_run_anchored(front);
        run(front).lemma_apply_anchored(calls.last());
    }
}

/// The first offset recorded for a valid stream is that of the bit after the
/// header and of the first decompressed byte.
pub proof fn lemma_first_offset_follows_header(calls: Seq<Call>)
    requires
        permitted(calls),
        orderly(calls),
        never_cleared(calls),
        run(calls).offsets.len() > 0,
    ensures
        run(calls).offsets[0] == (BlockOffset {
            compressed_bit_offset: 32,
            decompressed_byte_offset: 0,
        }),
{
    lemma_run_anchored(calls);
}

// The number of the recorded offsets

impl DecoderModel {
    /// A block's offset is marked as recorded only while the block is read.
    spec fn marked_while_reading(self) -> bool {
        self.recorded ==> self.block is Reading
    }

    /// An orderly call records an offset exactly if it starts a block.
    proof fn lemma_apply_counts(self, call: Call)
        requires
            self.wf(),
            self.permits(call),
            self.orderly_call(call),
            self.marked_while_reading(),
        ensures
            self.apply(call).marked_while_reading(),
            match call {
                Call::ClearBlockOffsets => self.apply(call).offsets.len() == 0,
                Call::Read { buf_len, event: Event::BlockDecoded(Ok(outcome)) } => self.apply(
                    call,
                ).offsets.len() == self.offsets.len() + if self.starts_block(outcome) {
                    1nat
                } else {
                    0nat
                },
                _ => self.apply(call).offsets.len() == self.offsets.len(),
            },
    {
    }
}

proof fn lemma_run_counts(calls: Seq<Call>)
    requires
        permitted(calls),
        orderly(calls),
    ensures
        run(calls).marked_while_reading(),
        run(calls).offsets.len() == blocks_started(calls),
    decreases calls.len(),
{
    if calls.len() > 0 {
        lemma_run_wf(calls.drop_last());
        lemma_run_counts(calls.drop_last());
        run(calls.drop_last()).lemma_apply_counts(calls.last());
    }
}

/// Exactly one offset is recorded for each block of a valid stream, however
/// many reads it takes to drain the block: the recorded offsets are as many
/// as the blocks that were started since the offsets were last cleared.
pub proof fn lemma_one_offset_per_block(calls: Seq<Call>)
    requires
        permitted(calls),
        orderly(calls),
    ensures
        run(calls).offsets.len() == blocks_started(calls),
{
    lemma_run_counts(calls);
}

/// At most one offset is recorded for a block, whatever the block decoder
/// reports: the recorded offsets are no more than the blocks that were
/// started since the offsets were last cleared.
pub proof fn lemma_at_most_one_offset_per_block(calls: Seq<Call>)
    requires
        permitted(calls),
    ensures
        run(calls).offsets.len() <= blocks_started(calls),
    decreases calls.len(),
{
    if calls.len() > 0 {
        lemma_at_most_one_offset_per_block(calls.drop_last());
    }
}

// How the input is cut into writes

impl DecoderModel {
    /// Writing non-empty chunks one after the other is writing all their
    /// bytes at once: how the input is cut into writes does not show in the
    /// decoder.
    pub proof fn lemma_write_in_pieces(self, chunks: Seq<Seq<u8>>)
        requires
            chunks.len() > 0,
            forall|i: int| 0 <= i < chunks.len() ==> (#[trigger] chunks[i]).len() > 0,
        ensures
            self.write_all(chunks) == self.write(chunks.flatten()),
        decreases chunks.len(),
    {
        let front = chunks.drop_last();
        assert(chunks =~= front.push(chunks.last()));
        front.lemma_flatten_push(chunks.last());
        if front.len() == 0 {
            assert(chunks.flatten() =~= chunks.last());
        } else {
            assert forall|i: int| 0 <= i < front.len() implies (#[trigger] front[i]).len()
                > 0 by {
                assert(front[i] == chunks[i]);
            }
            self.lemma_write_in_pieces(front);
            front.lemma_flatten_length_ge_single_element_length(0);
            assert(self.write(front.flatten()).write(chunks.last()) =~= self.write(
                chunks.flatten(),
            ));
        }
    }

    /// Input that is written before a step of a read, and not after it,
    /// changes nothing, with one exception: where the decoder, asked for
    /// output or given the header, stopped for want of input, it now is
    /// where a caller gets who writes the input then and asks again.
    ///
    /// This holds of the empty write, which ends the input, too.
    pub proof fn lemma_write_before_read(self, bytes: Seq<u8>, buf_len: usize, event: Event)
        requires
            self.wf(),
            self.accepts(buf_len, event),
        ensures
            self.write(bytes).accepts(buf_len, event),
            ({
                let (late, answer) = self.read(buf_len, event);
                if answer == Ok::<Step, DecoderError>(Step::Done(ReadState::NeedsWrite))
                    && !(event is BlockDecoded) {
                    self.write(bytes).read(buf_len, event) == late.write(bytes).read(
                        buf_len,
                        Event::Poll,
                    )
                } else {
                    self.write(bytes).read(buf_len, event) == (late.write(bytes), answer)
                }
            }),
    {
        match event {
            Event::HeaderParsed(Ok(header)) => {
                assert(self.write(bytes).install_header(header) =~= self.install_header(
                    header,
                ).write(bytes));
            },
            Event::BlockDecoded(Ok(outcome)) => {
                assert(self.write(bytes).settle(buf_len, outcome).0 =~= self.settle(
                    buf_len,
                    outcome,
                ).0.write(bytes));
            },
            _ => {},
        }
    }

    /// The two states are the same but for the input that is buffered, for
    /// what is known of its end, and for whether a block decoder that is not
    /// reading has been told that it can start.
    spec fn same_progress(self, other: Self) -> bool {
        &&& self.header == other.header
        &&& self.block == other.block || (!(self.block is Reading) && !(other.block is Reading))
        &&& self.skip_bits == other.skip_bits
        &&& self.eof == other.eof
        &&& self.offsets == other.offsets
        &&& self.total_bits_consumed == other.total_bits_consumed
        &&& self.decompressed_bytes_read == other.decompressed_bytes_read
        &&& self.recorded == other.recorded
    }

    /// A write or a request for output does not change the progress.
    proof fn lemma_no_report_no_progress(self, call: Call)
        requires
            self.wf(),
            !call.is_report(),
        ensures
            self.same_progress(self.apply(call)),
    {
    }

    /// The same report makes the same progress.
    proof fn lemma_same_report_same_progress(self, other: Self, call: Call)
        requires
            self.wf(),
            other.wf(),
            self.same_progress(other),
            call.is_report(),
            self.permits(call),
            other.permits(call),
        ensures
            self.apply(call).same_progress(other.apply(call)),
    {
    }
}

proof fn lemma_runs_make_same_progress(a: Seq<Call>, b: Seq<Call>)
    requires
        permitted(a),
        permitted(b),
        reports(a) == reports(b),
    ensures
        run(a).same_progress(run(b)),
    decreases a.len() + b.len(),
{
    if a.len() > 0 && !a.last().is_report() {
        lemma_runs_make_same_progress(a.drop_last(), b);
        lemma_run_wf(a.drop_last());
        run(a.drop_last()).lemma_no_report_no_progress(a.last());
    } else if b.len() > 0 && !b.last().is_report() {
        lemma_runs_make_same_progress(a, b.drop_last());
        lemma_run_wf(b.drop_last());
        run(b.drop_last()).lemma_no_report_no_progress(b.last());
    } else if a.len() > 0 && b.len() > 0 {
        let front_a = reports(a.drop_last());
        let front_b = reports(b.drop_last());
        assert(front_a.push(a.last()).last() == a.last());
        assert(front_b.push(b.last()).last() == b.last());
        assert(front_a.push(a.last()).drop_last() =~= front_a);
        assert(front_b.push(b.last()).drop_last() =~= front_b);
        lemma_runs_make_same_progress(a.drop_last(), b.drop_last());
        lemma_run_wf(a.drop_last());
        lemma_run_wf(b.drop_last());
        run(a.drop_last()).lemma_same_report_same_progress(run(b.drop_last()), a.last());
    } else if a.len() > 0 {
        assert(reports(a).len() > 0);
    } else if b.len() > 0 {
        assert(reports(b).len() > 0);
    }
}

/// How the input is cut into writes, and how often the caller asks for
/// output in vain, does not show in the recorded offsets. Two sequences of
/// calls in which the header parser and the block decoder report the same,
/// and in which the offsets are cleared at the same points, lead to the same
/// recorded offsets, the same count of committed bits and of decompressed
/// bytes, and both or neither to the end of the stream.
pub proof fn lemma_offsets_depend_on_reports_only(a: Seq<Call>, b: Seq<Call>)
    requires
        permitted(a),
        permitted(b),
        reports(a) == reports(b),
    ensures
        run(a).offsets == run(b).offsets,
        run(a).committed_bits() == run(b).committed_bits(),
        run(a).decompressed_bytes_read == run(b).decompressed_bytes_read,
        run(a).eof == run(b).eof,
{
    lemma_runs_make_same_progress(a, b);
}

// Clearing the recorded offsets

impl DecoderModel {
    /// Clearing the recorded offsets does not show in what follows. The next
    /// step of a read gives the same answer and leads to the same state, but
    /// for the offsets that were recorded before the clearing, which are
    /// gone; an offset that the step records is recorded all the same.
    pub proof fn lemma_clear_block_offsets_unseen(self, buf_len: usize, event: Event)
        requires
            self.wf(),
            self.accepts(buf_len, event),
        ensures
            self.clear_block_offsets().accepts(buf_len, event),
            ({
                let (kept, answer) = self.read(buf_len, event);
                self.clear_block_offsets().read(buf_len, event) == (
                    DecoderModel { offsets: kept.offsets.skip(self.offsets.len() as int), ..kept },
                    answer,
                )
            }),
    {
        let kept = self.read(buf_len, event).0;
        assert(self.clear_block_offsets().read(buf_len, event).0 =~= DecoderModel {
            offsets: kept.offsets.skip(self.offsets.len() as int),
            ..kept
        });
    }

    /// Clearing the recorded offsets and writing can be done in either
    /// order.
    pub proof fn lemma_clear_block_offsets_then_write(self, bytes: Seq<u8>)
        ensures
            self.clear_block_offsets().write(bytes) == self.write(bytes).clear_block_offsets(),
    {
    }
}

// What is settled

impl DecoderModel {
    /// What is settled stays settled: the header once it is parsed, the end
    /// of the input once it is announced, the end of the stream once it is
    /// reached. The committed bits and the decompressed bytes only grow.
    pub proof fn lemma_settled_stays(self, call: Call)
        requires
            self.wf(),
            self.permits(call),
        ensures
            self.header is Some ==> self.apply(call).header == self.header,
            self.write_eof ==> self.apply(call).write_eof,
            self.eof ==> self.apply(call).eof,
            self.committed_bits() <= self.apply(call).committed_bits(),
            self.decompressed_bytes_read <= self.apply(call).decompressed_bytes_read,
    {
    }

    /// The recorded offsets are only added to, but for the clearing: a write
    /// records nothing, and a step of a read records at most one offset, that
    /// of the bits committed and the bytes decompressed when the step began.
    pub proof fn lemma_offsets_only_grow(self, call: Call)
        requires
            self.wf(),
            self.permits(call),
            !(call is ClearBlockOffsets),
        ensures
            self.apply(call).offsets == self.offsets || self.apply(call).offsets
                == self.offsets.push(
                (BlockOffset {
                    compressed_bit_offset: self.committed_bits() as u64,
                    decompressed_byte_offset: self.decompressed_bytes_read as u64,
                }),
            ),
    {
    }

    /// Once the stream has ended, every read says so at once and changes
    /// nothing.
    pub proof fn lemma_eof_is_final(self, buf_len: usize, event: Event)
        requires
            self.wf(),
            self.eof,
            self.accepts(buf_len, event),
        ensures
            self.read(buf_len, event) == (
                self,
                Ok::<Step, DecoderError>(Step::Done(ReadState::Eof)),
            ),
    {
    }

    /// A read that is done has produced bytes, no more than the buffer
    /// holds, or none at all.
    pub proof fn lemma_read_fits_buffer(self, buf_len: usize, event: Event, n: usize)
        requires
            self.wf(),
            self.accepts(buf_len, event),
            self.read(buf_len, event).1 == Ok::<Step, DecoderError>(
                Step::Done(ReadState::Read(n)),
            ),
        ensures
            0 < n <= buf_len,
            self.read(buf_len, event).0.decompressed_bytes_read == self.decompressed_bytes_read
                + n,
    {
    }
}

// The account of the input

impl DecoderModel {
    /// A call that can be made neither loses nor invents input: the bits
    /// counted as consumed and the bytes still buffered change together.
    proof fn lemma_apply_accounts(self, call: Call)
        requires
            self.wf(),
            self.permits(call),
        ensures
            self.apply(call).total_bits_consumed + 8 * self.apply(call).input.len()
                == self.total_bits_consumed + 8 * self.input.len() + match call {
                Call::Write(bytes) => 8 * bytes.len(),
                _ => 0,
            },
    {
    }
}

/// No input is lost and none is invented: every byte that was written is
/// either still buffered or counted among the bits consumed, which advance
/// by whole bytes only.
pub proof fn lemma_input_accounted(calls: Seq<Call>)
    requires
        permitted(calls),
    ensures
        run(calls).total_bits_consumed + 8 * run(calls).input.len() == 8 * bytes_written(calls),
        run(calls).total_bits_consumed % 8 == 0,
    decreases calls.len(),
{
    lemma_run_wf(calls);
    if calls.len() > 0 {
        lemma_run_wf(calls.drop_last());
        lemma_input_accounted(calls.drop_last());
        run(calls.drop_last()).lemma_apply_accounts(calls.last());
    }
}

} // verus!
