//! The four operations of the tool, as pure byte-to-byte transformations:
//! the caller reads the file, hands the bytes in, and writes the bytes out.

use crate::checksum::crc32_of;
use crate::chunk::Chunk;
use crate::chunk::ChunkModel;
use crate::chunk_type::is_letter_char;
use crate::chunk_type::text_bytes;
use crate::chunk_type::type_text;
use crate::chunk_type::ChunkType;
use crate::error::PngError;
use crate::png::find_chunk;
use crate::png::png_parse_err;
use crate::png::png_parse_model;
use crate::png::png_parse_ok;
use crate::png::png_ser;
use crate::png::PngContainer;
use vstd::prelude::*;
use vstd::utf8::decode_utf8;
use vstd::utf8::valid_utf8;

verus! {

/// A 4-character, all-letter type code string.
pub open spec fn type_str_ok(s: Seq<char>) -> bool {
    s.len() == 4 && forall|i: int| 0 <= i < 4 ==> is_letter_char(#[trigger] s[i])
}

/// The chunk that hiding `message` under the type code `s` appends.
pub open spec fn encoded_chunk(s: Seq<char>, message: Seq<u8>) -> ChunkModel {
    ChunkModel {
        ty: text_bytes(s),
        data: message,
        crc: crc32_of(text_bytes(s) + message),
    }
}

/// Hides a message: parses the container, appends a fresh chunk built from
/// the type code and the message bytes, and returns the new byte stream.
pub fn encode(bytes: &[u8], chunk_type: &str, message: Vec<u8>) -> (r: Result<Vec<u8>, PngError>)
    requires
        message@.len() <= u32::MAX,
    ensures
        !png_parse_ok(bytes@) ==> (r matches Err(e) && e == png_parse_err(bytes@)),
        png_parse_ok(bytes@) && !type_str_ok(chunk_type@) ==> (r matches Err(e) && e == (
        if chunk_type@.len() != 4 {
            PngError::InvalidLength
        } else {
            PngError::InvalidTypeCode
        })),
        png_parse_ok(bytes@) && type_str_ok(chunk_type@) ==> (r matches Ok(out) && out@
            == png_ser(png_parse_model(bytes@).push(encoded_chunk(chunk_type@, message@)))),
{
    let mut png = match PngContainer::parse(bytes) {
        Ok(p) => p,
        Err(e) => {
            return Err(e);
        },
    };
    let ty = match ChunkType::from_str(chunk_type) {
        Ok(t) => t,
        Err(e) => {
            return Err(e);
        },
    };
    let chunk = Chunk::new(ty, message);
    png.append_chunk(chunk);
    Ok(png.as_bytes())
}

/// Looks a hidden message up: parses the container, finds the first chunk
/// with the given type code, and decodes its data as text; no match is a
/// plain "nothing there", not an error.
pub fn decode(bytes: &[u8], chunk_type: &str) -> (r: Result<Option<String>, PngError>)
    ensures
        !png_parse_ok(bytes@) ==> (r matches Err(e) && e == png_parse_err(bytes@)),
        png_parse_ok(bytes@) && find_chunk(png_parse_model(bytes@), chunk_type@) < 0 ==> r
            == Ok::<Option<String>, PngError>(None),
        png_parse_ok(bytes@) && find_chunk(png_parse_model(bytes@), chunk_type@) >= 0 ==> {
            let data = png_parse_model(bytes@)[find_chunk(png_parse_model(bytes@), chunk_type@)].data;
            &&& (valid_utf8(data) <==> r is Ok)
            &&& (r matches Ok(o) ==> o matches Some(s) && s@ == decode_utf8(data))
            &&& (r matches Err(e) ==> e == PngError::InvalidUtf8)
        },
{
    let png = match PngContainer::parse(bytes) {
        Ok(p) => p,
        Err(e) => {
            return Err(e);
        },
    };
    match png.chunk_by_type(chunk_type) {
        Some(c) => match c.data_as_string() {
            Ok(s) => Ok(Some(s)),
            Err(e) => Err(e),
        },
        None => Ok(None),
    }
}

/// Removes the first chunk with the given type code and returns the new
/// byte stream; fails with `ChunkNotFound` when no chunk matches.
pub fn remove(bytes: &[u8], chunk_type: &str) -> (r: Result<Vec<u8>, PngError>)
    ensures
        !png_parse_ok(bytes@) ==> (r matches Err(e) && e == png_parse_err(bytes@)),
        png_parse_ok(bytes@) && find_chunk(png_parse_model(bytes@), chunk_type@) < 0 ==> (r
            matches Err(e) && e == PngError::ChunkNotFound),
        png_parse_ok(bytes@) && find_chunk(png_parse_model(bytes@), chunk_type@) >= 0 ==> (r
            matches Ok(out) && out@ == png_ser(
            png_parse_model(bytes@).remove(find_chunk(png_parse_model(bytes@), chunk_type@)),
        )),
{
    let mut png = match PngContainer::parse(bytes) {
        Ok(p) => p,
        Err(e) => {
            return Err(e);
        },
    };
    match png.remove_chunk(chunk_type) {
        Ok(_) => Ok(png.as_bytes()),
        Err(e) => Err(e),
    }
}

/// Lists the type codes of all chunks, in order, as text.
pub fn list_chunks(bytes: &[u8]) -> (r: Result<Vec<String>, PngError>)
    ensures
        !png_parse_ok(bytes@) ==> (r matches Err(e) && e == png_parse_err(bytes@)),
        png_parse_ok(bytes@) ==> (r matches Ok(names) && names@.len() == png_parse_model(
            bytes@,
        ).len() && forall|i: int|
            0 <= i < names@.len() ==> #[trigger] names@[i]@ == type_text(
                png_parse_model(bytes@)[i].ty,
            )),
{
    let png = match PngContainer::parse(bytes) {
        Ok(p) => p,
        Err(e) => {
            return Err(e);
        },
    };
    Ok(png.chunk_type_list())
}

} // verus!
