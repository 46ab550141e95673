//! Incremental decoding of streamed byte input into protocol events.
//!
//! The core of the crate turns a chunked byte stream, as a transport delivers
//! it, into complete frames and decoded events: a byte buffer that gives
//! bytes up exactly once, a frame splitter that finds delimiters across chunk
//! boundaries, an event decoder for the wire records, and pull-driven stream
//! states for the event-record, line-oriented and raw-byte consumption modes.
//! Around that core stand the request and response data types of the
//! individual endpoints.

pub mod audio;
pub mod buffer;
pub mod chat;
pub mod common;
pub mod decoder;
pub mod embeddings;
pub mod error;
pub mod finetune;
pub mod image;
pub mod lines;
pub mod moderations;
pub mod reader;
pub mod scan;
pub mod splitter;
pub mod stream;
pub mod text;
