//! The error kinds that parsing, construction and lookup can report.

use vstd::prelude::*;

verus! {

/// Everything that can go wrong while building or reading a chunk or a
/// container. Integrity failures (`CrcMismatch`, `BadSignature`) are never
/// silently corrected: they abort the whole operation.
#[derive(Clone, Copy, Debug, PartialEq, Eq, Structural)]
pub enum PngError {
    /// A type-code byte is outside `A`-`Z` and `a`-`z`.
    InvalidTypeCode,
    /// A type-code string is not exactly 4 characters long.
    InvalidLength,
    /// Too few bytes to hold a chunk, or the declared data length does not
    /// fit the bytes that are there.
    Truncated,
    /// The stored checksum disagrees with the one recomputed over
    /// `type ++ data`.
    CrcMismatch,
    /// The byte stream does not begin with the fixed PNG signature.
    BadSignature,
    /// No chunk with the requested type code is present.
    ChunkNotFound,
    /// Chunk data that was asked for as text is not valid UTF-8.
    InvalidUtf8,
}

impl PngError {
    /// A short description, for callers that report errors to a user.
    pub fn describe(&self) -> (r: &'static str)
        ensures
            r@.len() > 0,
    {
        proof {
            reveal_strlit("type code byte out of range");
            reveal_strlit("type code must be 4 characters");
            reveal_strlit("truncated chunk");
            reveal_strlit("crc check fail!");
            reveal_strlit("bad png signature");
            reveal_strlit("chunk not found");
            reveal_strlit("chunk data is not valid utf-8");
        }
        match self {
            PngError::InvalidTypeCode => "type code byte out of range",
            PngError::InvalidLength => "type code must be 4 characters",
            PngError::Truncated => "truncated chunk",
            PngError::CrcMismatch => "crc check fail!",
            PngError::BadSignature => "bad png signature",
            PngError::ChunkNotFound => "chunk not found",
            PngError::InvalidUtf8 => "chunk data is not valid utf-8",
        }
    }
}

} // verus!
