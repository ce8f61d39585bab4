//! The CRC-32 checksum (ISO-HDLC, the PNG/zlib polynomial) over `type ++ data`
//! that guards every chunk.

use vstd::prelude::*;

verus! {

/// The CRC-32/ISO-HDLC checksum of a byte sequence. The algorithm itself is
/// left abstract: it is a fixed function of the bytes alone, and that is all
/// the library's contracts rely on.
pub uninterp spec fn crc32_of(bytes: Seq<u8>) -> u32;

/// Relies on the crc crate: `Crc::<u32>::new(&CRC_32_ISO_HDLC).checksum`
/// computes the CRC-32/ISO-HDLC checksum, a pure function of the input bytes.
#[verifier::external_body]
pub(crate) fn crc32(bytes: &Vec<u8>) -> (r: u32)
    ensures
        r == crc32_of(bytes@),
{
    crc::Crc::<u32>::new(&crc::CRC_32_ISO_HDLC).checksum(bytes.as_slice())
}

} // verus!
