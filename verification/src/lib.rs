//! A verified codec and container for PNG-style chunk streams.
//!
//! A chunk is a length-prefixed, CRC-checked binary record with a 4-byte
//! ASCII type code; a container is a fixed 8-byte signature followed by an
//! ordered sequence of chunks.  The library parses untrusted byte streams
//! into chunks, validates their structure and checksums, supports lookup,
//! insertion and removal by type, and serializes the collection back to a
//! byte-exact stream.

pub mod big_endian;
pub mod chunk;
pub mod chunk_type;
pub mod crc32;
pub mod error;
pub mod png;

mod text;
