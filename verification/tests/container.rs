use blorb::blorb_chunk_types::BlorbChunkType;
use blorb::blorb_reader::{BlorbReader, Chunk, ChunkData, FileIndex};
use blorb::ulx_reader::UlxReader;
use blorb::{FileReadError, GameType};

const MINIMAL_PNG: [u8; 67] = [
    0x89, 0x50, 0x4e, 0x47, 0x0d, 0x0a, 0x1a, 0x0a, 0x00, 0x00, 0x00, 0x0d, 0x49, 0x48, 0x44,
    0x52, 0x00, 0x00, 0x00, 0x01, 0x00, 0x00, 0x00, 0x01, 0x08, 0x00, 0x00, 0x00, 0x00, 0x3a,
    0x7e, 0x9b, 0x55, 0x00, 0x00, 0x00, 0x0a, 0x49, 0x44, 0x41, 0x54, 0x78, 0x9c, 0x63, 0x60,
    0x00, 0x00, 0x00, 0x02, 0x00, 0x01, 0x48, 0xaf, 0xa4, 0x71, 0x00, 0x00, 0x00, 0x00, 0x49,
    0x45, 0x4e, 0x44, 0xae, 0x42, 0x60, 0x82,
];

fn glulx_image() -> Vec<u8> {
    let mut v = Vec::new();
    v.extend_from_slice(b"Glul");
    for f in [1u32, 2, 3, 4, 5, 6, 7, 8] {
        v.extend_from_slice(&f.to_be_bytes());
    }
    v
}

fn raw_chunk(tag: &[u8; 4], payload: &[u8]) -> Vec<u8> {
    let mut v = Vec::new();
    v.extend_from_slice(tag);
    v.extend_from_slice(&(payload.len() as u32).to_be_bytes());
    v.extend_from_slice(payload);
    v
}

/// Assembles a container. Each entry gives a category tag, an id, and a
/// chunk body; the chunks are laid out after the index table and each
/// entry's address points at its chunk (addresses count from the start
/// of the container).
fn container(entries: &[(&[u8; 4], i32, Vec<u8>)]) -> Vec<u8> {
    let count = entries.len() as u32;
    let mut chunk_area = Vec::new();
    let mut addrs = Vec::new();
    let table_end = 24 + 12 * entries.len() as u32;
    for (_, _, body) in entries {
        addrs.push(table_end + chunk_area.len() as u32);
        chunk_area.extend_from_slice(body);
    }
    let mut v = Vec::new();
    v.extend_from_slice(b"FORM");
    let total = 12 + 12 * entries.len() as u32 + chunk_area.len() as u32 + 4;
    v.extend_from_slice(&total.to_be_bytes());
    v.extend_from_slice(b"IFRS");
    v.extend_from_slice(b"RIdx");
    v.extend_from_slice(&(4 + 12 * count).to_be_bytes());
    v.extend_from_slice(&count.to_be_bytes());
    for ((tag, id, _), addr) in entries.iter().zip(addrs) {
        v.extend_from_slice(*tag);
        v.extend_from_slice(&id.to_be_bytes());
        v.extend_from_slice(&addr.to_be_bytes());
    }
    v.extend_from_slice(&chunk_area);
    v
}

#[test]
fn chunk_header_too_short() {
    for n in [0usize, 1, 4, 7] {
        let bytes = vec![0u8; n];
        assert!(matches!(
            Chunk::try_from(&bytes),
            Err(FileReadError::InvalidLength(actual, 8)) if actual == n
        ));
    }
}

#[test]
fn chunk_unknown_tag() {
    let bytes = raw_chunk(b"Wave", b"xy");
    let value = u32::from_be_bytes(*b"Wave") as usize;
    assert!(matches!(
        Chunk::try_from(&bytes),
        Err(FileReadError::UnknownIdentifier(v)) if v == value
    ));
}

#[test]
fn chunk_declared_length_overruns_buffer() {
    let mut bytes = raw_chunk(b"TEXT", b"abcde");
    bytes.truncate(10);
    assert!(matches!(
        Chunk::try_from(&bytes),
        Err(FileReadError::InvalidLength(2, 5))
    ));
}

#[test]
fn chunk_glulx_payload_is_executable() {
    let image = glulx_image();
    let bytes = raw_chunk(b"GLUL", &image);
    let c = Chunk::try_from(&bytes).unwrap();
    assert_eq!(c.chunk_type, BlorbChunkType::EXEC_GLUL);
    match &c.data {
        ChunkData::Executable(d) => assert_eq!(*d, &image[..]),
        _ => panic!("expected an executable payload"),
    }
}

#[test]
fn chunk_other_kind_is_raw() {
    let bytes = raw_chunk(b"TEXT", b"story");
    let c = Chunk::try_from(&bytes).unwrap();
    assert_eq!(c.chunk_type, BlorbChunkType::TEXT);
    match &c.data {
        ChunkData::Raw(d) => assert_eq!(*d, &b"story"[..]),
        _ => panic!("expected a raw payload"),
    }
}

#[test]
fn chunk_png_payload_accepted() {
    let bytes = raw_chunk(b"PNG ", &MINIMAL_PNG);
    let c = Chunk::try_from(&bytes).unwrap();
    assert_eq!(c.chunk_type, BlorbChunkType::PICTURE_PNG);
    match &c.data {
        ChunkData::PNG(_, d) => assert_eq!(*d, &MINIMAL_PNG[..]),
        _ => panic!("expected a png payload"),
    }
}

#[test]
fn chunk_png_payload_rejected() {
    let bytes = raw_chunk(b"PNG ", b"not a png at all");
    assert!(matches!(
        Chunk::try_from(&bytes),
        Err(FileReadError::InvalidConversion)
    ));
}

#[test]
fn chunk_jpeg_payload_rejected() {
    let bytes = raw_chunk(b"JPEG", b"not a jpeg at all");
    assert!(matches!(
        Chunk::try_from(&bytes),
        Err(FileReadError::InvalidConversion)
    ));
}

#[test]
fn build_index_rejects_wrong_leading_tag() {
    let mut bytes = Vec::new();
    bytes.extend_from_slice(b"Pict");
    bytes.extend_from_slice(&[0u8; 8]);
    assert!(matches!(
        FileIndex::build_index(&bytes),
        Err(FileReadError::UnexpectedStartingIdentifier(
            BlorbChunkType::RESOURCE_INDEX
        ))
    ));
}

#[test]
fn build_index_rejects_short_table() {
    let mut bytes = Vec::new();
    bytes.extend_from_slice(b"RIdx");
    bytes.extend_from_slice(&16u32.to_be_bytes());
    bytes.extend_from_slice(&2u32.to_be_bytes());
    bytes.extend_from_slice(&[0u8; 12]);
    assert!(matches!(
        FileIndex::build_index(&bytes),
        Err(FileReadError::InvalidLength(1, 2))
    ));
}

#[test]
fn build_index_rejects_bad_category() {
    let body = raw_chunk(b"TEXT", b"x");
    let bytes = container(&[(b"TEXT", 1, body)]);
    let value = u32::from_be_bytes(*b"TEXT") as usize;
    assert!(matches!(
        BlorbReader::new(&bytes),
        Err(FileReadError::UnknownIdentifier(v)) if v == value
    ));
}

#[test]
fn build_index_rejects_address_before_table() {
    let mut bytes = container(&[(b"Data", 1, raw_chunk(b"TEXT", b"x"))]);
    bytes[32..36].copy_from_slice(&5u32.to_be_bytes());
    assert!(matches!(
        BlorbReader::new(&bytes),
        Err(FileReadError::InvalidLength(5, 12))
    ));
}

#[test]
fn build_index_rejects_address_past_end() {
    let mut bytes = container(&[(b"Data", 1, raw_chunk(b"TEXT", b"x"))]);
    bytes[32..36].copy_from_slice(&500u32.to_be_bytes());
    let post_envelope = bytes.len() - 12;
    assert!(matches!(
        BlorbReader::new(&bytes),
        Err(FileReadError::InvalidLength(actual, 488)) if actual == post_envelope
    ));
}

#[test]
fn container_form_length_mismatches() {
    for delta in [1i64, -1, 0] {
        let mut bytes = container(&[]);
        let declared = if delta == 0 {
            0u32
        } else {
            (bytes.len() as i64 - 8 + delta) as u32
        };
        bytes[4..8].copy_from_slice(&declared.to_be_bytes());
        if declared as usize == bytes.len() - 8 {
            continue;
        }
        let actual = bytes.len() - 8;
        assert!(matches!(
            BlorbReader::new(&bytes),
            Err(FileReadError::InvalidLength(a, d)) if a == actual && d == declared as usize
        ));
    }
}

#[test]
fn short_container_wrong_tag_reported_as_tag() {
    // The FORM check runs as soon as four bytes are there, before any
    // demand for the rest of the envelope.
    for n in 4..12usize {
        let mut bytes = vec![0u8; n];
        bytes[..4].copy_from_slice(b"XXXX");
        assert!(matches!(
            BlorbReader::new(&bytes),
            Err(FileReadError::UnexpectedStartingIdentifier(
                BlorbChunkType::FORM
            ))
        ));
    }
}

#[test]
fn short_container_length_mismatch_reported_as_length() {
    // The length-field comparison runs as soon as eight bytes are
    // there, before any demand for the sub-form tag.
    for n in 8..12usize {
        let mut bytes = vec![0u8; n];
        bytes[..4].copy_from_slice(b"FORM");
        bytes[4..8].copy_from_slice(&77u32.to_be_bytes());
        assert!(matches!(
            BlorbReader::new(&bytes),
            Err(FileReadError::InvalidLength(actual, 77)) if actual == n - 8
        ));
    }
}

#[test]
fn container_too_short_for_each_stage() {
    // Under four bytes nothing can be checked at all.
    assert!(matches!(
        BlorbReader::new(&[0x46, 0x4f][..]),
        Err(FileReadError::InvalidLength(2, 4))
    ));
    // With the form tag but no length field, the length field is owed.
    assert!(matches!(
        BlorbReader::new(&b"FORM\x00\x00"[..]),
        Err(FileReadError::InvalidLength(6, 8))
    ));
    // With a matching length field but no room for the sub-form tag,
    // the sub-form tag is owed.
    let mut bytes = vec![0u8; 10];
    bytes[..4].copy_from_slice(b"FORM");
    bytes[4..8].copy_from_slice(&2u32.to_be_bytes());
    assert!(matches!(
        BlorbReader::new(&bytes),
        Err(FileReadError::InvalidLength(10, 12))
    ));
}

#[test]
fn container_rejects_wrong_form_tag() {
    let mut bytes = container(&[]);
    bytes[0] = b'X';
    assert!(matches!(
        BlorbReader::new(&bytes),
        Err(FileReadError::UnexpectedStartingIdentifier(
            BlorbChunkType::FORM
        ))
    ));
}

#[test]
fn container_rejects_wrong_subform_tag() {
    let mut bytes = container(&[]);
    bytes[8] = b'X';
    assert!(matches!(
        BlorbReader::new(&bytes),
        Err(FileReadError::UnexpectedStartingIdentifier(
            BlorbChunkType::IFRS
        ))
    ));
}

#[test]
fn empty_index_is_valid() {
    let bytes = container(&[]);
    let reader = BlorbReader::new(&bytes).unwrap();
    for kind in [
        BlorbChunkType::PICTURE,
        BlorbChunkType::SOUND,
        BlorbChunkType::DATA,
        BlorbChunkType::EXECUTABLE,
    ] {
        assert!(reader.get(kind, 0).is_none());
        assert!(reader.get(kind, -1).is_none());
    }
}

#[test]
fn get_finds_entries_independent_of_order() {
    let exec_body = raw_chunk(b"GLUL", &glulx_image());
    let data_body = raw_chunk(b"TEXT", b"hello");
    let forward = container(&[
        (b"Exec", 0, exec_body.clone()),
        (b"Data", 7, data_body.clone()),
    ]);
    let backward = container(&[(b"Data", 7, data_body), (b"Exec", 0, exec_body)]);
    for bytes in [forward, backward] {
        let reader = BlorbReader::new(&bytes).unwrap();
        match reader.get(BlorbChunkType::DATA, 7) {
            Some(ChunkData::Raw(d)) => assert_eq!(*d, &b"hello"[..]),
            _ => panic!("data resource 7 must be the raw text chunk"),
        }
        assert!(matches!(
            reader.get(BlorbChunkType::EXECUTABLE, 0),
            Some(ChunkData::Executable(_))
        ));
        assert!(reader.get(BlorbChunkType::DATA, 0).is_none());
        assert!(reader.get(BlorbChunkType::FORM, 0).is_none());
    }
}

#[test]
fn duplicate_id_last_entry_wins() {
    let first = raw_chunk(b"TEXT", b"first");
    let second = raw_chunk(b"TEXT", b"second");
    let bytes = container(&[(b"Data", 3, first), (b"Data", 3, second)]);
    let reader = BlorbReader::new(&bytes).unwrap();
    match reader.get(BlorbChunkType::DATA, 3) {
        Some(ChunkData::Raw(d)) => assert_eq!(*d, &b"second"[..]),
        _ => panic!("data resource 3 must be the later chunk"),
    }
}

#[test]
fn address_correction_round_trip() {
    let payload = b"payload bytes";
    let body = raw_chunk(b"TEXT", payload);
    let bytes = container(&[(b"Data", 1, body)]);
    // The single chunk sits right after the 36-byte table, and its
    // entry's address field names that file offset.
    assert_eq!(&bytes[32..36], &36u32.to_be_bytes());
    assert_eq!(&bytes[36..40], b"TEXT");
    let reader = BlorbReader::new(&bytes).unwrap();
    match reader.get(BlorbChunkType::DATA, 1) {
        Some(ChunkData::Raw(d)) => assert_eq!(*d, &payload[..]),
        _ => panic!("data resource 1 must hold the payload"),
    }
}

#[test]
fn get_exec_returns_header() {
    let bytes = container(&[(b"Exec", 0, raw_chunk(b"GLUL", &glulx_image()))]);
    let reader = BlorbReader::new(&bytes).unwrap();
    let u = reader.get_exec(0).unwrap();
    assert_eq!(&u.header.magic_num.to_be_bytes(), b"Glul");
    assert_eq!(u.header.version, 1);
    assert!(reader.get_exec(1).is_none());
}

#[test]
fn get_exec_on_non_executable_chunk() {
    let bytes = container(&[(b"Exec", 0, raw_chunk(b"TEXT", b"not code"))]);
    let reader = BlorbReader::new(&bytes).unwrap();
    assert!(reader.get_exec(0).is_none());
    assert!(matches!(
        reader.get(BlorbChunkType::EXECUTABLE, 0),
        Some(ChunkData::Raw(_))
    ));
}

#[test]
fn get_image_returns_picture() {
    let bytes = container(&[(b"Pict", 4, raw_chunk(b"PNG ", &MINIMAL_PNG))]);
    let reader = BlorbReader::new(&bytes).unwrap();
    assert!(matches!(
        reader.get_image(4),
        Some(ChunkData::PNG(_, _))
    ));
    assert!(reader.get_image(5).is_none());
}

#[test]
fn get_image_filters_executable_payload() {
    let bytes = container(&[(b"Pict", 4, raw_chunk(b"GLUL", &glulx_image()))]);
    let reader = BlorbReader::new(&bytes).unwrap();
    assert!(reader.get_image(4).is_none());
    assert!(reader.get(BlorbChunkType::PICTURE, 4).is_some());
}

#[test]
fn identify_bare_image() {
    let image = glulx_image();
    match GameType::try_from(&image) {
        Ok(GameType::Ulx(u)) => assert_eq!(&u.header.magic_num.to_be_bytes(), b"Glul"),
        _ => panic!("a bare Glulx image must identify as the bare variant"),
    }
}

#[test]
fn bare_image_get_exec_is_itself() {
    let image = glulx_image();
    let game = GameType::try_from(&image).unwrap();
    let u = game.get_exec();
    assert_eq!(u.header.version, 1);
    assert_eq!(u.memory, &image[..]);
}

#[test]
fn identify_container() {
    let bytes = container(&[(b"Exec", 0, raw_chunk(b"GLUL", &glulx_image()))]);
    let game = GameType::try_from(&bytes).unwrap();
    assert!(matches!(game, GameType::Blorb(_)));
    let u: UlxReader = game.get_exec();
    assert_eq!(&u.header.magic_num.to_be_bytes(), b"Glul");
}

#[test]
fn identify_unknown_file_type() {
    let bytes = b"neither a glulx image nor a container";
    assert!(matches!(
        GameType::try_from(&bytes[..]),
        Err(FileReadError::UnknownFileType)
    ));
}

#[test]
fn end_to_end_container_with_executable() {
    // "FORM" + len + "IFRS" + "RIdx" + idxLen + count 1 + "Exec" + id 0
    // + address + "GLUL" chunk + "Glul" image.
    let bytes = container(&[(b"Exec", 0, raw_chunk(b"GLUL", &glulx_image()))]);
    assert_eq!(&bytes[..4], b"FORM");
    assert_eq!(&bytes[8..12], b"IFRS");
    assert_eq!(&bytes[12..16], b"RIdx");
    assert_eq!(&bytes[20..24], &1u32.to_be_bytes());
    assert_eq!(&bytes[24..28], b"Exec");
    assert_eq!(&bytes[28..32], &0u32.to_be_bytes());
    let reader = BlorbReader::new(&bytes).unwrap();
    let u = reader.get_exec(0).unwrap();
    assert_eq!(&u.header.magic_num.to_be_bytes(), b"Glul");
}
