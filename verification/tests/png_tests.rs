use pngme::chunk::Chunk;
use pngme::chunk_type::ChunkType;
use pngme::commands;
use pngme::error::PngError;
use pngme::png::PngContainer;

const SIGNATURE: [u8; 8] = [137, 80, 78, 71, 13, 10, 26, 10];

fn chunk_of(type_code: &str, data: &str) -> Chunk {
    Chunk::new(
        ChunkType::from_str(type_code).unwrap(),
        data.as_bytes().to_vec(),
    )
}

fn container_bytes(chunks: &[(&str, &str)]) -> Vec<u8> {
    let mut bytes = SIGNATURE.to_vec();
    for (t, d) in chunks {
        bytes.extend_from_slice(chunk_of(t, d).as_bytes().as_slice());
    }
    bytes
}

#[test]
fn test_container_parse_and_round_trip() {
    let bytes = container_bytes(&[("FrSt", "I am the first chunk"), ("mIDl", "middle"), ("LASt", "the end")]);
    let png = PngContainer::parse(bytes.as_ref()).unwrap();
    assert_eq!(png.as_bytes(), bytes);
}

#[test]
fn test_container_empty_round_trip() {
    let bytes = SIGNATURE.to_vec();
    let png = PngContainer::parse(bytes.as_ref()).unwrap();
    assert_eq!(png.as_bytes(), bytes);
}

#[test]
fn test_container_bad_signature() {
    let mut bytes = container_bytes(&[("RuSt", "hello")]);
    bytes[0] = 13;
    assert_eq!(
        PngContainer::parse(bytes.as_ref()).unwrap_err(),
        PngError::BadSignature
    );
    assert_eq!(
        PngContainer::parse(&bytes[0..5]).unwrap_err(),
        PngError::BadSignature
    );
}

#[test]
fn test_container_propagates_chunk_error() {
    let mut bytes = container_bytes(&[("FrSt", "fine"), ("RuSt", "broken")]);
    let n = bytes.len();
    bytes[n - 1] ^= 1;
    assert_eq!(
        PngContainer::parse(bytes.as_ref()).unwrap_err(),
        PngError::CrcMismatch
    );
    let truncated = &bytes[0..n - 3];
    assert_eq!(
        PngContainer::parse(truncated).unwrap_err(),
        PngError::Truncated
    );
}

#[test]
fn test_container_append_and_lookup() {
    let bytes = container_bytes(&[("FrSt", "I am the first chunk")]);
    let mut png = PngContainer::parse(bytes.as_ref()).unwrap();
    png.append_chunk(chunk_of("RuSt", "Message"));
    let found = png.chunk_by_type("RuSt").unwrap();
    assert_eq!(found.data_as_string().unwrap(), "Message");
    assert!(png.chunk_by_type("NoNe").is_none());
}

#[test]
fn test_container_lookup_finds_first_match() {
    let bytes = container_bytes(&[("RuSt", "first"), ("RuSt", "second")]);
    let png = PngContainer::parse(bytes.as_ref()).unwrap();
    let found = png.chunk_by_type("RuSt").unwrap();
    assert_eq!(found.data_as_string().unwrap(), "first");
}

#[test]
fn test_container_remove_chunk() {
    let bytes = container_bytes(&[("FrSt", "one"), ("RuSt", "two")]);
    let mut png = PngContainer::parse(bytes.as_ref()).unwrap();
    png.remove_chunk("RuSt").unwrap();
    assert!(png.chunk_by_type("RuSt").is_none());
    assert_eq!(png.as_bytes(), container_bytes(&[("FrSt", "one")]));
}

#[test]
fn test_container_remove_absent_chunk() {
    let bytes = container_bytes(&[("FrSt", "one")]);
    let mut png = PngContainer::parse(bytes.as_ref()).unwrap();
    assert_eq!(png.remove_chunk("NoNe").unwrap_err(), PngError::ChunkNotFound);
    assert_eq!(png.as_bytes(), bytes);
}

#[test]
fn test_container_chunk_type_list() {
    let bytes = container_bytes(&[("FrSt", "one"), ("RuSt", "two"), ("LASt", "three")]);
    let png = PngContainer::parse(bytes.as_ref()).unwrap();
    let names = png.chunk_type_list();
    assert_eq!(names, vec!["FrSt", "RuSt", "LASt"]);
}

#[test]
fn test_container_built_from_empty() {
    let mut png = PngContainer::new();
    assert_eq!(png.as_bytes(), SIGNATURE.to_vec());
    png.append_chunk(chunk_of("RuSt", "hello"));
    assert_eq!(png.as_bytes(), container_bytes(&[("RuSt", "hello")]));
}

#[test]
fn test_encode_decode_scenario() {
    let bytes = container_bytes(&[("FrSt", "I am the first chunk")]);
    let message = "This is where your secret message will be!";
    let encoded = commands::encode(bytes.as_ref(), "RuSt", message.as_bytes().to_vec()).unwrap();

    let png = PngContainer::parse(encoded.as_ref()).unwrap();
    let chunk = png.chunk_by_type("RuSt").unwrap();
    assert_eq!(chunk.length(), 42);
    assert_eq!(chunk.crc(), 2882656334);
    assert_eq!(chunk.data_as_string().unwrap(), message);

    let decoded = commands::decode(encoded.as_ref(), "RuSt").unwrap();
    assert_eq!(decoded.unwrap(), message);
}

#[test]
fn test_decode_absent_chunk() {
    let bytes = container_bytes(&[("FrSt", "one")]);
    assert_eq!(commands::decode(bytes.as_ref(), "RuSt").unwrap(), None);
}

#[test]
fn test_encode_rejects_bad_type_code() {
    let bytes = container_bytes(&[]);
    assert_eq!(
        commands::encode(bytes.as_ref(), "Ru1t", b"m".to_vec()).unwrap_err(),
        PngError::InvalidTypeCode
    );
    assert_eq!(
        commands::encode(bytes.as_ref(), "Rust1", b"m".to_vec()).unwrap_err(),
        PngError::InvalidLength
    );
}

#[test]
fn test_remove_command() {
    let bytes = container_bytes(&[("FrSt", "one"), ("RuSt", "two")]);
    let out = commands::remove(bytes.as_ref(), "RuSt").unwrap();
    assert_eq!(out, container_bytes(&[("FrSt", "one")]));
    assert_eq!(
        commands::remove(out.as_ref(), "RuSt").unwrap_err(),
        PngError::ChunkNotFound
    );
}

#[test]
fn test_list_chunks_command() {
    let bytes = container_bytes(&[("FrSt", "one"), ("RuSt", "two")]);
    let names = commands::list_chunks(bytes.as_ref()).unwrap();
    assert_eq!(names, vec!["FrSt", "RuSt"]);
}

#[test]
fn test_error_descriptions_are_distinct() {
    let errors = [
        PngError::InvalidTypeCode,
        PngError::InvalidLength,
        PngError::Truncated,
        PngError::CrcMismatch,
        PngError::BadSignature,
        PngError::ChunkNotFound,
        PngError::InvalidUtf8,
    ];
    for (i, a) in errors.iter().enumerate() {
        assert!(!a.describe().is_empty());
        for b in errors.iter().skip(i + 1) {
            assert_ne!(a.describe(), b.describe());
        }
    }
}
