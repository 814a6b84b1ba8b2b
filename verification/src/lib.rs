//! Streaming ingestion of compressed, newline-delimited JSON.
//!
//! A run is fed the compressed bytes of one object chunk by chunk. The bytes
//! are decompressed a bounded piece at a time, the content is cut into lines,
//! each line is parsed as one JSON record, and the records are counted.
//! Nothing but the line under construction is kept between chunks, so memory
//! use follows the longest line, not the object.

pub mod aggregate;
pub mod decode;
pub mod error;
pub mod lines;
pub mod pipeline;
pub mod record;
pub mod summary;
pub mod driver;
