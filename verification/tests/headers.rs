use blorb::blorb_chunk_types::BlorbChunkType;
use blorb::read_be_u32;
use blorb::ulx_reader::{GlulxDebuggingHeader, GlulxHeader, UlxReader};
use blorb::FileReadError;

fn glulx_image(fields: [u32; 8]) -> Vec<u8> {
    let mut v = Vec::new();
    v.extend_from_slice(b"Glul");
    for f in fields {
        v.extend_from_slice(&f.to_be_bytes());
    }
    v
}

fn debug_block() -> Vec<u8> {
    let mut v = Vec::new();
    v.extend_from_slice(b"INFO");
    v.extend_from_slice(&5u32.to_be_bytes());
    v.extend_from_slice(&6u32.to_be_bytes());
    v.extend_from_slice(&7u32.to_be_bytes());
    v.extend_from_slice(&0x0102u16.to_be_bytes());
    v.extend_from_slice(b"SERIAL");
    v
}

#[test]
fn read_be_u32_exact_value() {
    assert_eq!(read_be_u32(&[0x12, 0x34, 0x56, 0x78]), Ok(0x12345678));
    assert_eq!(read_be_u32(&[0x00, 0x01, 0x02, 0x03, 0xff]), Ok(0x00010203));
}

#[test]
fn read_be_u32_short_input() {
    assert_eq!(read_be_u32(&[]), Err(FileReadError::InvalidLength(0, 4)));
    assert_eq!(
        read_be_u32(&[0xde, 0xad, 0xbe]),
        Err(FileReadError::InvalidLength(3, 4))
    );
}

#[test]
fn chunk_type_try_from_recognized_tags() {
    let cases: [(&[u8; 4], BlorbChunkType); 23] = [
        (b"FORM", BlorbChunkType::FORM),
        (b"IFRS", BlorbChunkType::IFRS),
        (b"RIdx", BlorbChunkType::RESOURCE_INDEX),
        (b"Pict", BlorbChunkType::PICTURE),
        (b"Snd ", BlorbChunkType::SOUND),
        (b"Exec", BlorbChunkType::EXECUTABLE),
        (b"Data", BlorbChunkType::DATA),
        (b"PNG ", BlorbChunkType::PICTURE_PNG),
        (b"JPEG", BlorbChunkType::PICTURE_JPEG),
        (b"MOD ", BlorbChunkType::SOUND_MOD),
        (b"SONG", BlorbChunkType::SOUND_SONG),
        (b"ZCOD", BlorbChunkType::EXEC_ZCOD),
        (b"GLUL", BlorbChunkType::EXEC_GLUL),
        (b"TEXT", BlorbChunkType::TEXT),
        (b"Plte", BlorbChunkType::COLOR_PALETTE),
        (b"Reso", BlorbChunkType::RESOLUTION),
        (b"Loop", BlorbChunkType::LOOP),
        (b"RelN", BlorbChunkType::RELEASE_NUMBER),
        (b"IFhd", BlorbChunkType::IF_HEADER),
        (b"AUTH", BlorbChunkType::AUTHOR),
        (b"(c)_", BlorbChunkType::COPYRIGHT),
        (b"ANNO", BlorbChunkType::ANNOTATION),
        (b"INFO", BlorbChunkType::INFO),
    ];
    for (tag, kind) in cases {
        let value = u32::from_be_bytes(*tag);
        assert_eq!(BlorbChunkType::try_from(value), Ok(kind));
        assert_eq!(kind.value(), value);
    }
}

#[test]
fn chunk_type_try_from_unknown_tag() {
    let value = u32::from_be_bytes(*b"Wave");
    assert_eq!(
        BlorbChunkType::try_from(value),
        Err(FileReadError::UnknownIdentifier(value as usize))
    );
}

#[test]
fn glulx_header_decodes_fields() {
    let image = glulx_image([
        0x00030102, 0x100, 0x200, 0x300, 0x400, 0x12345678, 0x500, 0xdeadbeef,
    ]);
    let h = GlulxHeader::try_from(&image).unwrap();
    assert_eq!(&h.magic_num.to_be_bytes(), b"Glul");
    assert_eq!(h.version, 0x00030102);
    assert_eq!(h.ram_start, 0x100);
    assert_eq!(h.ext_start, 0x200);
    assert_eq!(h.end_mem, 0x300);
    assert_eq!(h.stack_size, 0x400);
    assert_eq!(h.start_function_address, 0x12345678);
    assert_eq!(h.decoding_table_address, 0x500);
    assert_eq!(h.checksum, 0xdeadbeef);
}

#[test]
fn glulx_header_short_buffer() {
    assert_eq!(
        GlulxHeader::try_from(&[]),
        Err(FileReadError::InvalidLength(0, 36))
    );
    let image = glulx_image([0; 8]);
    assert_eq!(
        GlulxHeader::try_from(&image[..35]),
        Err(FileReadError::InvalidLength(35, 36))
    );
}

#[test]
fn glulx_magic_flip_each_byte() {
    for i in 0..4 {
        let mut image = glulx_image([1, 2, 3, 4, 5, 6, 7, 8]);
        image[i] ^= 0x01;
        assert_eq!(
            GlulxHeader::try_from(&image),
            Err(FileReadError::UnexpectedStartingIdentifier(
                BlorbChunkType::EXEC_GLUL
            ))
        );
    }
}

#[test]
fn debug_header_decodes_fields() {
    let block = debug_block();
    let d = GlulxDebuggingHeader::try_from(&block).unwrap();
    assert_eq!(&d.id.to_be_bytes(), b"INFO");
    assert_eq!(d.memory_layout, 5);
    assert_eq!(d.inform_version, 6);
    assert_eq!(d.glulx_compiler_version, 7);
    assert_eq!(d.game_version, 0x0102);
    assert_eq!(&d.game_serial_number, b"SERIAL");
}

#[test]
fn debug_header_short_buffer() {
    let block = debug_block();
    assert_eq!(
        GlulxDebuggingHeader::try_from(&block[..23]),
        Err(FileReadError::InvalidLength(23, 24))
    );
}

#[test]
fn debug_header_wrong_signature() {
    let mut block = debug_block();
    block[0] = b'X';
    assert_eq!(
        GlulxDebuggingHeader::try_from(&block),
        Err(FileReadError::UnexpectedStartingIdentifier(
            BlorbChunkType::INFO
        ))
    );
}

#[test]
fn ulx_reader_bare_image_without_debug_header() {
    let image = glulx_image([1, 2, 3, 4, 5, 6, 7, 8]);
    let u = UlxReader::try_from(&image).unwrap();
    assert_eq!(u.header.version, 1);
    assert!(u.debugging_header.is_none());
    assert_eq!(u.memory, &image[..]);
}

#[test]
fn ulx_reader_with_debug_header() {
    let mut image = glulx_image([1, 2, 3, 4, 5, 6, 7, 8]);
    image.extend_from_slice(&debug_block());
    let u = UlxReader::try_from(&image).unwrap();
    let d = u.debugging_header.unwrap();
    assert_eq!(d.memory_layout, 5);
    assert_eq!(&d.game_serial_number, b"SERIAL");
    assert_eq!(u.memory, &image[..]);
}

#[test]
fn ulx_reader_rejects_wrong_magic() {
    let mut image = glulx_image([1, 2, 3, 4, 5, 6, 7, 8]);
    image[0] = b'X';
    assert!(matches!(
        UlxReader::try_from(&image),
        Err(FileReadError::UnexpectedStartingIdentifier(
            BlorbChunkType::EXEC_GLUL
        ))
    ));
}
