//! The decoder step by step, with the reports of the header parser and of
//! the block decoder written out by hand.

use bzip2_rs::block_offsets::BlockOffset;
use bzip2_rs::decoder::queue::InputQueue;
use bzip2_rs::decoder::{
    BlockError, BlockOutcome, BlockState, Decoder, DecoderError, Event, ReadState, Step,
};
use bzip2_rs::header::{Header, HeaderError, HEADER_BITS, HEADER_SIZE};

fn buffered(decoder: &Decoder) -> Vec<u8> {
    let (first, second) = decoder.input();
    [first, second].concat()
}

fn decoded(read: usize, position: u64, state: BlockState) -> Event {
    Event::BlockDecoded(Ok(BlockOutcome { read, position, state }))
}

/// A decoder whose header, with a block size of ten bytes, has been parsed,
/// and which holds `input` behind it.
fn after_header(input: &[u8]) -> Decoder {
    let mut decoder = Decoder::new();
    decoder.write(b"BZh1");
    decoder.write(input);
    assert_eq!(decoder.read(8, Event::Poll), Ok(Step::ParseHeader(b'B', b'Z', b'h', b'1')));
    decoder
}

/// A decoder whose block decoder is ready to start the first block.
fn ready(input: &[u8]) -> Decoder {
    let mut decoder = after_header(input);
    assert!(input.len() >= 10);
    assert_eq!(
        decoder.read(8, Event::HeaderParsed(Ok(Header { max_blocksize: 10 }))),
        Ok(Step::DecodeBlock { state: BlockState::ReadyForRead, skip_bits: 0 })
    );
    decoder
}

#[test]
fn header_constants() {
    assert_eq!(HEADER_SIZE, 4);
    assert_eq!(HEADER_BITS, 32);
}

#[test]
fn new_decoder_needs_input() {
    let mut decoder = Decoder::new();
    assert!(decoder.block_offsets().is_empty());
    assert!(buffered(&decoder).is_empty());
    assert_eq!(decoder.read(8, Event::Poll), Ok(Step::Done(ReadState::NeedsWrite)));
    assert_eq!(decoder.read(0, Event::Poll), Ok(Step::Done(ReadState::NeedsWrite)));

    let mut decoder = Decoder::default();
    assert_eq!(decoder.read(8, Event::Poll), Ok(Step::Done(ReadState::NeedsWrite)));
}

#[test]
fn header_waits_for_four_bytes() {
    let mut decoder = Decoder::new();
    decoder.write(b"BZ");
    decoder.write(b"h");
    assert_eq!(decoder.read(8, Event::Poll), Ok(Step::Done(ReadState::NeedsWrite)));
    assert!(!decoder.accepts(8, &Event::HeaderParsed(Ok(Header { max_blocksize: 10 }))));
    // The end of the input does not make up for a short header.
    decoder.write(&[]);
    assert_eq!(decoder.read(8, Event::Poll), Ok(Step::Done(ReadState::NeedsWrite)));
    decoder.write(b"7");
    assert_eq!(decoder.read(8, Event::Poll), Ok(Step::ParseHeader(b'B', b'Z', b'h', b'7')));
    assert!(decoder.accepts(8, &Event::HeaderParsed(Ok(Header { max_blocksize: 10 }))));
    assert_eq!(buffered(&decoder), b"BZh7");
}

#[test]
fn header_errors_are_handed_on() {
    for error in [HeaderError::InvalidSignature, HeaderError::UnsupportedBlockSize] {
        let mut decoder = after_header(b"0123456789");
        assert!(decoder.accepts(8, &Event::HeaderParsed(Err(error))));
        assert_eq!(
            decoder.read(8, Event::HeaderParsed(Err(error))),
            Err(DecoderError::Header(error))
        );
        // Nothing has changed: the header is still to be parsed.
        assert_eq!(buffered(&decoder), b"BZh10123456789");
        assert_eq!(decoder.read(8, Event::Poll), Ok(Step::ParseHeader(b'B', b'Z', b'h', b'1')));
    }
}

#[test]
fn header_bytes_leave_the_input() {
    let mut decoder = after_header(b"012345678");
    assert_eq!(
        decoder.read(8, Event::HeaderParsed(Ok(Header { max_blocksize: 10 }))),
        Ok(Step::Done(ReadState::NeedsWrite))
    );
    assert_eq!(buffered(&decoder), b"012345678");
    // The header is parsed once.
    assert!(!decoder.accepts(8, &Event::HeaderParsed(Ok(Header { max_blocksize: 10 }))));
    assert!(!decoder.accepts(8, &Event::HeaderParsed(Err(HeaderError::InvalidSignature))));
}

#[test]
fn block_starts_with_a_full_block_buffered() {
    // Nine bytes behind the header: one short of a block.
    let mut decoder = after_header(b"012345678");
    assert_eq!(
        decoder.read(8, Event::HeaderParsed(Ok(Header { max_blocksize: 10 }))),
        Ok(Step::Done(ReadState::NeedsWrite))
    );
    assert_eq!(decoder.read(8, Event::Poll), Ok(Step::Done(ReadState::NeedsWrite)));
    assert!(!decoder.accepts(8, &decoded(1, 8, BlockState::Reading)));
    decoder.write(b"9");
    assert_eq!(
        decoder.read(8, Event::Poll),
        Ok(Step::DecodeBlock { state: BlockState::ReadyForRead, skip_bits: 0 })
    );
    // Asking again changes nothing.
    assert_eq!(
        decoder.read(8, Event::Poll),
        Ok(Step::DecodeBlock { state: BlockState::ReadyForRead, skip_bits: 0 })
    );
    assert!(decoder.accepts(8, &decoded(1, 8, BlockState::Reading)));
}

#[test]
fn block_starts_at_the_end_of_the_input() {
    let mut decoder = after_header(b"");
    decoder.write(&[]);
    assert_eq!(
        decoder.read(8, Event::HeaderParsed(Ok(Header { max_blocksize: 900_000 }))),
        Ok(Step::DecodeBlock { state: BlockState::ReadyForRead, skip_bits: 0 })
    );
}

#[test]
fn first_block_is_recorded_behind_the_header() {
    let mut decoder = ready(b"0123456789");
    assert_eq!(
        decoder.read(8, decoded(5, 11, BlockState::Reading)),
        Ok(Step::Done(ReadState::Read(5)))
    );
    assert_eq!(
        decoder.block_offsets(),
        &[BlockOffset { compressed_bit_offset: 32, decompressed_byte_offset: 0 }]
    );
    // Eleven bits are one whole byte, which is gone, and three bits to skip.
    assert_eq!(buffered(&decoder), b"123456789");
    assert_eq!(
        decoder.read(8, Event::Poll),
        Ok(Step::DecodeBlock { state: BlockState::Reading, skip_bits: 3 })
    );
}

#[test]
fn block_is_recorded_once() {
    let mut decoder = ready(b"0123456789");
    assert_eq!(
        decoder.read(8, decoded(5, 11, BlockState::Reading)),
        Ok(Step::Done(ReadState::Read(5)))
    );
    assert_eq!(
        decoder.read(8, decoded(8, 3, BlockState::Reading)),
        Ok(Step::Done(ReadState::Read(8)))
    );
    assert_eq!(
        decoder.read(8, decoded(2, 20, BlockState::Reading)),
        Ok(Step::Done(ReadState::Read(2)))
    );
    assert_eq!(decoder.block_offsets().len(), 1);
    assert_eq!(buffered(&decoder), b"3456789");
    assert_eq!(
        decoder.read(8, Event::Poll),
        Ok(Step::DecodeBlock { state: BlockState::Reading, skip_bits: 4 })
    );
}

#[test]
fn next_block_is_recorded_where_the_last_one_ended() {
    let mut decoder = ready(b"0123456789abcdefghij");
    assert_eq!(
        decoder.read(8, decoded(5, 11, BlockState::Reading)),
        Ok(Step::Done(ReadState::Read(5)))
    );
    // The run that finishes the block takes it to 8 + 21 bits behind the
    // header.
    assert_eq!(
        decoder.read(8, decoded(7, 21, BlockState::NotReady)),
        Ok(Step::Done(ReadState::Read(7)))
    );
    assert_eq!(buffered(&decoder), b"3456789abcdefghij");
    assert!(!decoder.accepts(8, &decoded(1, 8, BlockState::Reading)));
    assert_eq!(
        decoder.read(8, Event::Poll),
        Ok(Step::DecodeBlock { state: BlockState::ReadyForRead, skip_bits: 5 })
    );
    assert_eq!(
        decoder.read(8, decoded(3, 40, BlockState::Reading)),
        Ok(Step::Done(ReadState::Read(3)))
    );
    assert_eq!(
        decoder.block_offsets(),
        &[
            BlockOffset { compressed_bit_offset: 32, decompressed_byte_offset: 0 },
            BlockOffset { compressed_bit_offset: 61, decompressed_byte_offset: 12 },
        ]
    );
    assert_eq!(buffered(&decoder), b"89abcdefghij");
    assert_eq!(
        decoder.read(8, Event::Poll),
        Ok(Step::DecodeBlock { state: BlockState::Reading, skip_bits: 0 })
    );
}

#[test]
fn next_block_waits_for_a_full_block_again() {
    let mut decoder = ready(b"0123456789");
    assert_eq!(
        decoder.read(8, decoded(5, 8, BlockState::Reading)),
        Ok(Step::Done(ReadState::Read(5)))
    );
    assert_eq!(
        decoder.read(8, decoded(5, 0, BlockState::NotReady)),
        Ok(Step::Done(ReadState::Read(5)))
    );
    // Nine bytes are left.
    assert_eq!(decoder.read(8, Event::Poll), Ok(Step::Done(ReadState::NeedsWrite)));
    decoder.write(b"a");
    assert_eq!(
        decoder.read(8, Event::Poll),
        Ok(Step::DecodeBlock { state: BlockState::ReadyForRead, skip_bits: 0 })
    );
}

#[test]
fn block_that_starts_and_ends_at_once_is_not_recorded() {
    let mut decoder = ready(b"0123456789");
    assert_eq!(
        decoder.read(8, decoded(5, 16, BlockState::NotReady)),
        Ok(Step::Done(ReadState::Read(5)))
    );
    assert!(decoder.block_offsets().is_empty());
    assert_eq!(buffered(&decoder), b"23456789");
}

#[test]
fn nothing_read_while_reading_ends_the_stream() {
    let mut decoder = ready(b"0123456789");
    assert_eq!(
        decoder.read(8, decoded(5, 11, BlockState::Reading)),
        Ok(Step::Done(ReadState::Read(5)))
    );
    assert_eq!(
        decoder.read(8, decoded(0, 3, BlockState::Reading)),
        Ok(Step::Done(ReadState::NeedsWrite))
    );
    assert_eq!(decoder.read(8, Event::Poll), Ok(Step::Done(ReadState::Eof)));
    decoder.write(b"more");
    decoder.write(&[]);
    assert_eq!(decoder.read(8, Event::Poll), Ok(Step::Done(ReadState::Eof)));
    assert!(!decoder.accepts(8, &decoded(0, 3, BlockState::Reading)));
    assert_eq!(decoder.block_offsets().len(), 1);
}

#[test]
fn nothing_read_before_reading_asks_for_input() {
    let mut decoder = ready(b"0123456789");
    assert_eq!(
        decoder.read(8, decoded(0, 0, BlockState::ReadyForRead)),
        Ok(Step::Done(ReadState::NeedsWrite))
    );
    assert!(decoder.block_offsets().is_empty());
    assert_eq!(
        decoder.read(8, Event::Poll),
        Ok(Step::DecodeBlock { state: BlockState::ReadyForRead, skip_bits: 0 })
    );
}

#[test]
fn nothing_read_commits_nothing() {
    let mut decoder = ready(b"0123456789");
    // The block starts, and is recorded, but the cursor's seventeen bits are
    // not taken from the input.
    assert_eq!(
        decoder.read(8, decoded(0, 17, BlockState::Reading)),
        Ok(Step::Done(ReadState::NeedsWrite))
    );
    assert_eq!(
        decoder.block_offsets(),
        &[BlockOffset { compressed_bit_offset: 32, decompressed_byte_offset: 0 }]
    );
    assert_eq!(buffered(&decoder), b"0123456789");
    assert_eq!(
        decoder.read(8, Event::Poll),
        Ok(Step::DecodeBlock { state: BlockState::Reading, skip_bits: 0 })
    );
}

#[test]
fn empty_buffer_does_not_end_the_stream() {
    let mut decoder = ready(b"0123456789");
    assert_eq!(
        decoder.read(8, decoded(5, 11, BlockState::Reading)),
        Ok(Step::Done(ReadState::Read(5)))
    );
    assert_eq!(
        decoder.read(0, decoded(0, 3, BlockState::Reading)),
        Ok(Step::Done(ReadState::NeedsWrite))
    );
    assert_eq!(
        decoder.read(0, Event::Poll),
        Ok(Step::DecodeBlock { state: BlockState::Reading, skip_bits: 3 })
    );
}

#[test]
fn block_errors_are_handed_on() {
    for error in [
        BlockError::InvalidBitstream,
        BlockError::InvalidTables,
        BlockError::ChecksumMismatch,
        BlockError::Truncated,
    ] {
        let mut decoder = ready(b"0123456789");
        assert!(decoder.accepts(8, &Event::BlockDecoded(Err(error))));
        assert_eq!(
            decoder.read(8, Event::BlockDecoded(Err(error))),
            Err(DecoderError::Block(error))
        );
        assert!(decoder.block_offsets().is_empty());
        assert_eq!(buffered(&decoder), b"0123456789");
    }
}

#[test]
fn accepts_only_runs_that_can_have_been() {
    let mut decoder = Decoder::new();
    assert!(decoder.accepts(8, &Event::Poll));
    assert!(!decoder.accepts(8, &decoded(1, 8, BlockState::Reading)));
    assert!(!decoder.accepts(8, &Event::BlockDecoded(Err(BlockError::Truncated))));

    decoder = ready(b"0123456789");
    assert!(decoder.accepts(8, &decoded(8, 80, BlockState::Reading)));
    // More bytes than the buffer holds.
    assert!(!decoder.accepts(8, &decoded(9, 80, BlockState::Reading)));
    // A cursor beyond the end of the input.
    assert!(!decoder.accepts(8, &decoded(8, 81, BlockState::Reading)));
    assert!(!decoder.accepts(8, &decoded(8, 88, BlockState::Reading)));
    assert!(!decoder.accepts(8, &decoded(8, u64::MAX, BlockState::Reading)));
    // More bytes than the count of decompressed bytes has room for.
    assert_eq!(
        decoder.read(usize::MAX, decoded(usize::MAX, 13, BlockState::Reading)),
        Ok(Step::Done(ReadState::Read(usize::MAX)))
    );
    assert!(decoder.accepts(8, &decoded(0, 5, BlockState::Reading)));
    if usize::MAX as u64 == u64::MAX {
        assert!(!decoder.accepts(8, &decoded(1, 5, BlockState::Reading)));
    }
    // A cursor before the bits that were skipped.
    assert!(!decoder.accepts(8, &decoded(0, 4, BlockState::Reading)));
}

#[test]
fn clearing_leaves_the_decoding_alone() {
    let mut decoder = ready(b"0123456789abcdefghij");
    assert_eq!(
        decoder.read(8, decoded(5, 11, BlockState::Reading)),
        Ok(Step::Done(ReadState::Read(5)))
    );
    decoder.clear_block_offsets();
    assert!(decoder.block_offsets().is_empty());
    assert_eq!(buffered(&decoder), b"123456789abcdefghij");
    assert_eq!(
        decoder.read(8, Event::Poll),
        Ok(Step::DecodeBlock { state: BlockState::Reading, skip_bits: 3 })
    );
    assert_eq!(
        decoder.read(8, decoded(7, 21, BlockState::NotReady)),
        Ok(Step::Done(ReadState::Read(7)))
    );
    assert_eq!(
        decoder.read(8, Event::Poll),
        Ok(Step::DecodeBlock { state: BlockState::ReadyForRead, skip_bits: 5 })
    );
    assert_eq!(
        decoder.read(8, decoded(3, 40, BlockState::Reading)),
        Ok(Step::Done(ReadState::Read(3)))
    );
    assert_eq!(
        decoder.block_offsets(),
        &[BlockOffset { compressed_bit_offset: 61, decompressed_byte_offset: 12 }]
    );
}

#[test]
fn writes_add_up() {
    let mut whole = Decoder::new();
    whole.write(b"BZh9 and the rest");
    let mut cut = Decoder::new();
    for byte in b"BZh9 and the rest" {
        cut.write(&[*byte]);
    }
    assert_eq!(buffered(&whole), buffered(&cut));
    assert_eq!(whole.read(8, Event::Poll), cut.read(8, Event::Poll));
}

#[test]
fn input_comes_in_order_from_both_slices() {
    let mut decoder = ready(&[0; 10]);
    let mut expected = vec![0; 10];
    let mut next = 1u8;
    // Take bytes from the front and add bytes at the back until the buffered
    // input has gone round its storage several times.
    for round in 0..200 {
        let taken = 1 + round % 7;
        assert_eq!(
            decoder.read(8, decoded(1, 8 * taken as u64, BlockState::Reading)),
            Ok(Step::Done(ReadState::Read(1)))
        );
        expected.drain(..taken);
        let added: Vec<u8> = (0..taken + round % 3)
            .map(|_| {
                next = next.wrapping_add(1);
                next
            })
            .collect();
        decoder.write(&added);
        expected.extend_from_slice(&added);
        assert_eq!(buffered(&decoder), expected);
    }
}

#[test]
fn queue_appends_and_drains() {
    let mut queue = InputQueue::new();
    assert_eq!(queue.len(), 0);
    queue.extend(b"abc");
    queue.extend(b"");
    queue.extend(b"defg");
    assert_eq!(queue.len(), 7);
    assert_eq!(queue.get(0), b'a');
    assert_eq!(queue.get(6), b'g');
    queue.drain_front(0);
    assert_eq!(queue.len(), 7);
    queue.drain_front(3);
    assert_eq!(queue.len(), 4);
    assert_eq!(queue.get(0), b'd');
    let (first, second) = queue.as_slices();
    assert_eq!([first, second].concat(), b"defg");
    queue.drain_front(4);
    assert_eq!(queue.len(), 0);
    let copy = queue.clone();
    assert_eq!(copy.len(), 0);
}
