//! One PNG chunk: a length-prefixed, typed, checksummed data record.
//!
//! On the wire a chunk is `length(4, BE) ++ type(4) ++ data(length) ++
//! crc(4, BE)`, where the checksum is the CRC-32/ISO-HDLC of `type ++ data`.

use crate::checksum::crc32;
use crate::checksum::crc32_of;
use crate::chunk_type::type_wf;
use crate::chunk_type::ChunkType;
use crate::codec::be_u32;
use crate::codec::lemma_be_u32_injective;
use crate::codec::lemma_be_u32_round;
use crate::codec::lemma_u32_be_round;
use crate::codec::push_u32_be;
use crate::codec::read_u32_be;
use crate::codec::u32_be;
use crate::error::PngError;
use crate::text::bytes_to_string;
use vstd::prelude::*;
use vstd::slice::slice_subrange;
use vstd::slice::slice_to_vec;
use vstd::utf8::decode_utf8;
use vstd::utf8::valid_utf8;

verus! {

/// What a chunk is mathematically: its type bytes, its data bytes and its
/// stored checksum.
pub ghost struct ChunkModel {
    pub ty: Seq<u8>,
    pub data: Seq<u8>,
    pub crc: u32,
}

/// A well-formed chunk: a valid type code, data that fits the 32-bit length
/// field, and a checksum that is really the CRC-32 of `type ++ data`.
pub open spec fn chunk_wf(c: ChunkModel) -> bool {
    &&& type_wf(c.ty)
    &&& c.data.len() <= u32::MAX
    &&& c.crc == crc32_of(c.ty + c.data)
}

/// The wire form of a chunk.
pub open spec fn chunk_ser(c: ChunkModel) -> Seq<u8> {
    u32_be(c.data.len() as u32) + c.ty + c.data + u32_be(c.crc)
}

/// The frame is sound: at least the 12 header and trailer bytes, and the
/// declared length is exactly the byte count of the data region.
pub open spec fn chunk_frame_ok(b: Seq<u8>) -> bool {
    b.len() >= 12 && be_u32(b.subrange(0, 4)) == b.len() - 12
}

/// The type field of a framed chunk.
pub open spec fn chunk_ty_of(b: Seq<u8>) -> Seq<u8> {
    b.subrange(4, 8)
}

/// The data region of a framed chunk.
pub open spec fn chunk_data_of(b: Seq<u8>) -> Seq<u8> {
    b.subrange(8, b.len() - 4)
}

/// The stored checksum of a framed chunk.
pub open spec fn chunk_crc_of(b: Seq<u8>) -> u32 {
    be_u32(b.subrange(b.len() - 4, b.len() as int))
}

/// The bytes parse as a chunk: sound frame, valid type code, and a stored
/// checksum that matches the one recomputed over `type ++ data`.
pub open spec fn chunk_parse_ok(b: Seq<u8>) -> bool {
    &&& chunk_frame_ok(b)
    &&& type_wf(chunk_ty_of(b))
    &&& chunk_crc_of(b) == crc32_of(chunk_ty_of(b) + chunk_data_of(b))
}

/// The chunk held by bytes that parse.
pub open spec fn chunk_parse_model(b: Seq<u8>) -> ChunkModel {
    ChunkModel { ty: chunk_ty_of(b), data: chunk_data_of(b), crc: chunk_crc_of(b) }
}

/// The error reported for bytes that do not parse: the first failing check
/// in frame, type, checksum order.
pub open spec fn chunk_parse_err(b: Seq<u8>) -> PngError {
    if !chunk_frame_ok(b) {
        PngError::Truncated
    } else if !type_wf(chunk_ty_of(b)) {
        PngError::InvalidTypeCode
    } else {
        PngError::CrcMismatch
    }
}

/// One chunk. The checksum is verified at every construction, never merely
/// stored, and a chunk is immutable after creation.
#[derive(Debug)]
pub struct Chunk {
    pub(crate) len: u32,
    pub(crate) chunk_type: ChunkType,
    pub(crate) chunk_data: Vec<u8>,
    pub(crate) crc: u32,
}

impl View for Chunk {
    type V = ChunkModel;

    closed spec fn view(&self) -> ChunkModel {
        ChunkModel { ty: self.chunk_type@, data: self.chunk_data@, crc: self.crc }
    }
}

impl Chunk {
    #[verifier::type_invariant]
    pub(crate) open spec fn inv(self) -> bool {
        chunk_wf(self@) && self.len as nat == self.chunk_data@.len()
    }

    /// Builds a fresh chunk from a type and data; the checksum is computed,
    /// so the result is always well formed.
    pub fn new(chunk_type: ChunkType, data: Vec<u8>) -> (r: Chunk)
        requires
            data@.len() <= u32::MAX,
        ensures
            r@.ty == chunk_type@,
            r@.data == data@,
            r@.crc == crc32_of(chunk_type@ + data@),
            chunk_wf(r@),
    {
        proof {
            use_type_invariant(&chunk_type);
        }
        let tb = chunk_type.bytes();
        let mut buf: Vec<u8> = Vec::new();
        buf.push(tb[0]);
        buf.push(tb[1]);
        buf.push(tb[2]);
        buf.push(tb[3]);
        buf.extend_from_slice(data.as_slice());
        proof {
            assert(buf@ =~= chunk_type@ + data@);
        }
        let crc = crc32(&buf);
        let len = data.len() as u32;
        Chunk { len, chunk_type, chunk_data: data, crc }
    }

    /// Interprets a byte slice as one whole chunk. Fails with `Truncated`
    /// when fewer than 12 bytes are there or the declared length does not
    /// fit the bytes exactly, with `InvalidTypeCode` on a bad type field,
    /// and with `CrcMismatch` when the stored checksum disagrees with the
    /// one recomputed over `type ++ data`.
    pub fn parse(bytes: &[u8]) -> (r: Result<Chunk, PngError>)
        ensures
            r is Ok <==> chunk_parse_ok(bytes@),
            r matches Ok(c) ==> c@ == chunk_parse_model(bytes@) && chunk_wf(c@),
            r matches Err(e) ==> e == chunk_parse_err(bytes@),
    {
        let n = bytes.len();
        if n < 12 {
            return Err(PngError::Truncated);
        }
        let declared = read_u32_be(bytes[0], bytes[1], bytes[2], bytes[3]);
        proof {
            assert(seq![bytes@[0], bytes@[1], bytes@[2], bytes@[3]] =~= bytes@.subrange(0, 4));
        }
        if !(declared as u64 == (n - 12) as u64) {
            return Err(PngError::Truncated);
        }
        let ta = [bytes[4], bytes[5], bytes[6], bytes[7]];
        proof {
            assert(ta@ =~= chunk_ty_of(bytes@));
        }
        let chunk_type = match ChunkType::try_from(ta) {
            Ok(t) => t,
            Err(e) => {
                return Err(e);
            },
        };
        let chunk_data = slice_to_vec(slice_subrange(bytes, 8, n - 4));
        let stored = read_u32_be(bytes[n - 4], bytes[n - 3], bytes[n - 2], bytes[n - 1]);
        proof {
            assert(seq![bytes@[n - 4], bytes@[n - 3], bytes@[n - 2], bytes@[n - 1]]
                =~= bytes@.subrange(n - 4, n as int));
        }
        let mut buf: Vec<u8> = Vec::new();
        let tb = chunk_type.bytes();
        buf.push(tb[0]);
        buf.push(tb[1]);
        buf.push(tb[2]);
        buf.push(tb[3]);
        buf.extend_from_slice(chunk_data.as_slice());
        proof {
            assert(buf@ =~= chunk_ty_of(bytes@) + chunk_data_of(bytes@));
        }
        let computed = crc32(&buf);
        if stored != computed {
            return Err(PngError::CrcMismatch);
        }
        Ok(Chunk { len: declared, chunk_type, chunk_data, crc: stored })
    }

    /// The byte count of the data field.
    pub fn length(&self) -> (r: u32)
        ensures
            r as nat == self@.data.len(),
    {
        proof {
            use_type_invariant(&*self);
        }
        self.len
    }

    /// The chunk's type code.
    pub fn chunk_type(&self) -> (r: &ChunkType)
        ensures
            r@ == self@.ty,
    {
        &self.chunk_type
    }

    /// The data bytes, read-only.
    pub fn data(&self) -> (r: &[u8])
        ensures
            r@ == self@.data,
    {
        self.chunk_data.as_slice()
    }

    /// The stored checksum, which by construction is always the CRC-32 of
    /// `type ++ data`.
    pub fn crc(&self) -> (r: u32)
        ensures
            r == self@.crc,
            r == crc32_of(self@.ty + self@.data),
    {
        proof {
            use_type_invariant(&*self);
        }
        self.crc
    }

    /// The data decoded as UTF-8 text; fails with `InvalidUtf8` on data
    /// that is not text.
    pub fn data_as_string(&self) -> (r: Result<String, PngError>)
        ensures
            r is Ok <==> valid_utf8(self@.data),
            r matches Ok(s) ==> s@ == decode_utf8(self@.data),
            r matches Err(e) ==> e == PngError::InvalidUtf8,
    {
        match bytes_to_string(&self.chunk_data) {
            Some(s) => Ok(s),
            None => Err(PngError::InvalidUtf8),
        }
    }

    /// The wire form: `length(4, BE) ++ type(4) ++ data ++ crc(4, BE)`.
    pub fn as_bytes(&self) -> (r: Vec<u8>)
        ensures
            r@ == chunk_ser(self@),
    {
        proof {
            use_type_invariant(&*self);
        }
        let mut out: Vec<u8> = Vec::new();
        push_u32_be(&mut out, self.len);
        let tb = self.chunk_type.bytes();
        out.push(tb[0]);
        out.push(tb[1]);
        out.push(tb[2]);
        out.push(tb[3]);
        out.extend_from_slice(self.chunk_data.as_slice());
        push_u32_be(&mut out, self.crc);
        proof {
            assert(out@ =~= chunk_ser(self@));
        }
        out
    }

    /// The type code as text, as a human-facing label for the chunk.
    pub fn render_as_text(&self) -> (r: String)
        ensures
            r@ == crate::chunk_type::type_text(self@.ty),
    {
        self.chunk_type.render_as_text()
    }
}

/// Round-trip law: serializing any well-formed chunk and parsing the bytes
/// back gives exactly the same chunk — type, data and crc all equal.
pub proof fn lemma_chunk_round_trip(c: ChunkModel)
    requires
        chunk_wf(c),
    ensures
        chunk_parse_ok(chunk_ser(c)),
        chunk_parse_model(chunk_ser(c)) == c,
{
    let b = chunk_ser(c);
    lemma_u32_be_round(c.data.len() as u32);
    lemma_u32_be_round(c.crc);
    assert(b.len() == 12 + c.data.len());
    assert(b.subrange(0, 4) =~= u32_be(c.data.len() as u32));
    assert(chunk_ty_of(b) =~= c.ty);
    assert(chunk_data_of(b) =~= c.data);
    assert(b.subrange(b.len() - 4, b.len() as int) =~= u32_be(c.crc));
}

/// Serialization inverts parsing: the wire form of the chunk held by a
/// well-formed frame is that frame, byte for byte.
pub proof fn lemma_chunk_parse_inverse(b: Seq<u8>)
    requires
        chunk_parse_ok(b),
    ensures
        chunk_ser(chunk_parse_model(b)) == b,
{
    let c = chunk_parse_model(b);
    lemma_be_u32_round(b.subrange(0, 4));
    lemma_be_u32_round(b.subrange(b.len() - 4, b.len() as int));
    assert(c.data.len() as u32 == be_u32(b.subrange(0, 4)));
    assert(chunk_ser(c) =~= b);
}

/// Checksum determinism: the crc of a well-formed chunk is a function of
/// its type bytes and data alone.
pub proof fn lemma_crc_deterministic(c1: ChunkModel, c2: ChunkModel)
    requires
        chunk_wf(c1),
        chunk_wf(c2),
        c1.ty == c2.ty,
        c1.data == c2.data,
    ensures
        c1.crc == c2.crc,
{
}

/// Tampering with the stored checksum is caught: any change inside the
/// trailing crc field of a frame that parses makes parsing fail, and fail
/// with `CrcMismatch`.
pub proof fn lemma_tampered_crc_rejected(b: Seq<u8>, b2: Seq<u8>)
    requires
        chunk_parse_ok(b),
        b2.len() == b.len(),
        b2.subrange(0, b.len() - 4) == b.subrange(0, b.len() - 4),
        b2.subrange(b.len() - 4, b.len() as int) != b.subrange(b.len() - 4, b.len() as int),
    ensures
        !chunk_parse_ok(b2),
        chunk_parse_err(b2) == PngError::CrcMismatch,
{
    let n = b.len() as int;
    let p2 = b2.subrange(0, n - 4);
    let p1 = b.subrange(0, n - 4);
    assert forall|i: int| 0 <= i < n - 4 implies b2[i] == b[i] by {
        assert(p2[i] == p1[i]);
    }
    assert(b2.subrange(0, 4) =~= b.subrange(0, 4));
    assert(chunk_ty_of(b2) =~= chunk_ty_of(b));
    assert(chunk_data_of(b2) =~= chunk_data_of(b));
    lemma_be_u32_injective(
        b2.subrange(n - 4, n),
        b.subrange(n - 4, n),
    );
}

} // verus!
