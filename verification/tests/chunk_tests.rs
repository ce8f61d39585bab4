use pngme::chunk::Chunk;
use pngme::chunk_type::ChunkType;
use pngme::error::PngError;

fn testing_chunk() -> Chunk {
    let data_length: u32 = 42;
    let chunk_type = "RuSt".as_bytes();
    let message_bytes = "This is where your secret message will be!".as_bytes();
    let crc: u32 = 2882656334;

    let chunk_data: Vec<u8> = data_length
        .to_be_bytes()
        .iter()
        .chain(chunk_type.iter())
        .chain(message_bytes.iter())
        .chain(crc.to_be_bytes().iter())
        .copied()
        .collect();

    Chunk::parse(chunk_data.as_ref()).unwrap()
}

#[test]
fn test_new_chunk() {
    let chunk_type = ChunkType::from_str("RuSt").unwrap();
    let data = "This is where your secret message will be!"
        .as_bytes()
        .to_vec();
    let chunk = Chunk::new(chunk_type, data);
    assert_eq!(chunk.length(), 42);
    assert_eq!(chunk.crc(), 2882656334);
}

#[test]
fn test_chunk_length() {
    let chunk = testing_chunk();
    assert_eq!(chunk.length(), 42);
}

#[test]
fn test_chunk_type() {
    let chunk = testing_chunk();
    assert_eq!(chunk.chunk_type().render_as_text(), String::from("RuSt"));
}

#[test]
fn test_chunk_string() {
    let chunk = testing_chunk();
    let chunk_string = chunk.data_as_string().unwrap();
    let expected_chunk_string = String::from("This is where your secret message will be!");
    assert_eq!(chunk_string, expected_chunk_string);
}

#[test]
fn test_chunk_crc() {
    let chunk = testing_chunk();
    assert_eq!(chunk.crc(), 2882656334);
}

#[test]
fn test_valid_chunk_from_bytes() {
    let data_length: u32 = 42;
    let chunk_type = "RuSt".as_bytes();
    let message_bytes = "This is where your secret message will be!".as_bytes();
    let crc: u32 = 2882656334;

    let chunk_data: Vec<u8> = data_length
        .to_be_bytes()
        .iter()
        .chain(chunk_type.iter())
        .chain(message_bytes.iter())
        .chain(crc.to_be_bytes().iter())
        .copied()
        .collect();

    let chunk = Chunk::parse(chunk_data.as_ref()).unwrap();

    let chunk_string = chunk.data_as_string().unwrap();
    let expected_chunk_string = String::from("This is where your secret message will be!");

    assert_eq!(chunk.length(), 42);
    assert_eq!(chunk.chunk_type().render_as_text(), String::from("RuSt"));
    assert_eq!(chunk_string, expected_chunk_string);
    assert_eq!(chunk.crc(), 2882656334);
}

#[test]
fn test_invalid_chunk_from_bytes() {
    let data_length: u32 = 42;
    let chunk_type = "RuSt".as_bytes();
    let message_bytes = "This is where your secret message will be!".as_bytes();
    let crc: u32 = 2882656333;

    let chunk_data: Vec<u8> = data_length
        .to_be_bytes()
        .iter()
        .chain(chunk_type.iter())
        .chain(message_bytes.iter())
        .chain(crc.to_be_bytes().iter())
        .copied()
        .collect();

    let chunk = Chunk::parse(chunk_data.as_ref());

    assert!(chunk.is_err());
}

#[test]
pub fn test_chunk_trait_impls() {
    let data_length: u32 = 42;
    let chunk_type = "RuSt".as_bytes();
    let message_bytes = "This is where your secret message will be!".as_bytes();
    let crc: u32 = 2882656334;

    let chunk_data: Vec<u8> = data_length
        .to_be_bytes()
        .iter()
        .chain(chunk_type.iter())
        .chain(message_bytes.iter())
        .chain(crc.to_be_bytes().iter())
        .copied()
        .collect();

    let chunk: Chunk = Chunk::parse(chunk_data.as_ref()).unwrap();

    let _chunk_string = chunk.render_as_text();
}

#[test]
fn test_chunk_round_trip_bytes() {
    let chunk = testing_chunk();
    let bytes = chunk.as_bytes();
    let back = Chunk::parse(bytes.as_ref()).unwrap();
    assert_eq!(back.length(), chunk.length());
    assert_eq!(back.chunk_type().bytes(), chunk.chunk_type().bytes());
    assert_eq!(back.data(), chunk.data());
    assert_eq!(back.crc(), chunk.crc());
}

#[test]
fn test_chunk_crc_deterministic() {
    let t1 = ChunkType::from_str("RuSt").unwrap();
    let t2 = ChunkType::from_str("RuSt").unwrap();
    let c1 = Chunk::new(t1, b"same payload".to_vec());
    let c2 = Chunk::new(t2, b"same payload".to_vec());
    assert_eq!(c1.crc(), c2.crc());
    let c3 = Chunk::new(ChunkType::from_str("RuSt").unwrap(), b"same payloae".to_vec());
    assert_ne!(c1.crc(), c3.crc());
}

#[test]
fn test_chunk_tampered_data_rejected() {
    let chunk = testing_chunk();
    let bytes = chunk.as_bytes();
    for pos in 8..bytes.len() {
        for bit in 0..8 {
            let mut tampered = bytes.clone();
            tampered[pos] ^= 1u8 << bit;
            let res = Chunk::parse(tampered.as_ref());
            assert_eq!(res.unwrap_err(), PngError::CrcMismatch);
        }
    }
}

#[test]
fn test_chunk_truncated() {
    let chunk = testing_chunk();
    let bytes = chunk.as_bytes();
    assert_eq!(
        Chunk::parse(&bytes[0..11]).unwrap_err(),
        PngError::Truncated
    );
    assert_eq!(
        Chunk::parse(&bytes[0..bytes.len() - 1]).unwrap_err(),
        PngError::Truncated
    );
}

#[test]
fn test_chunk_empty_data() {
    let chunk = Chunk::new(ChunkType::from_str("RuSt").unwrap(), Vec::new());
    assert_eq!(chunk.length(), 0);
    let bytes = chunk.as_bytes();
    assert_eq!(bytes.len(), 12);
    let back = Chunk::parse(bytes.as_ref()).unwrap();
    assert_eq!(back.crc(), chunk.crc());
    assert_eq!(back.data_as_string().unwrap(), String::new());
}

#[test]
fn test_chunk_data_not_utf8() {
    let chunk = Chunk::new(ChunkType::from_str("RuSt").unwrap(), vec![0xff, 0xfe, 0x00]);
    assert_eq!(chunk.data_as_string().unwrap_err(), PngError::InvalidUtf8);
}

#[test]
fn test_chunk_bad_type_in_bytes() {
    let chunk = testing_chunk();
    let mut bytes = chunk.as_bytes();
    bytes[4] = b'1';
    assert_eq!(
        Chunk::parse(bytes.as_ref()).unwrap_err(),
        PngError::InvalidTypeCode
    );
}
