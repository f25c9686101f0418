//! Streaming driver for a bzip2 decompressor.
//!
//! The [`decoder::Decoder`] turns a caller-fed stream of compressed bytes into
//! decompressed output without ever blocking, and keeps a seek table: for each
//! compressed block, the bit at which it begins and the number of decompressed
//! bytes that precede it.
//!
//! Parsing the stream header and decoding a block's contents are left to the
//! caller. The decoder tells the caller which of the two it needs next, and the
//! caller reports back what came of it.

pub mod block_offsets;
pub mod decoder;
pub mod header;
