//! Demultiplexer core for an HEVC-encapsulated Dolby Vision elementary
//! stream: splits the stream into base layer, enhancement layer and RPU
//! metadata, optionally rewriting RPU payloads, and re-emits the buffered
//! RPU records in presentation order at end of stream.

pub mod dispatch;
pub mod laws;
pub mod nal;
pub mod options;
pub mod reorder;
pub mod splitter;
pub mod writer;
