//! PNG chunk manipulation: typed, length-prefixed, checksummed binary records
//! between the fixed PNG file signature, with lookup, append and removal by
//! four-letter type code.

pub mod checksum;
pub mod chunk;
pub mod chunk_type;
pub mod commands;
pub mod codec;
pub mod error;
pub mod png;
pub mod text;
