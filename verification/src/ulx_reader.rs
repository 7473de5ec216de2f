//! The Glulx executable image: its fixed 36-byte header, the optional
//! debugging header that may follow it, and the reader that combines
//! both with a borrowed view of the whole image.

use vstd::prelude::*;

use crate::blorb_chunk_types::BlorbChunkType;
use crate::{spec_be_u16, spec_be_u32, FileReadError};

verus! {

/// The Glulx magic signature: the ASCII bytes `Glul` as a big-endian
/// 32-bit integer.
pub const GLUL_AS_NUM: u32 = 0x476c756c;

/// The debugging-header signature: the ASCII bytes `INFO` as a
/// big-endian 32-bit integer.
pub const INFO_AS_NUM: u32 = 0x494e464f;

/// The size of the GlulxHeader in bytes.
pub const HEADER_SIZE: usize = 36;

/// The size of the debugging header in bytes.
pub const DEBUGGING_HEADER_SIZE: usize = 24;

/// The fixed 36-byte header of a Glulx executable image: nine
/// consecutive big-endian 32-bit fields. The offsets it carries point
/// into the accompanying memory image; they are not cross-validated
/// against the image's length here, as that is the executing
/// interpreter's concern.
#[derive(Copy, Clone, Eq, PartialEq, Hash, Debug)]
pub struct GlulxHeader {
    pub magic_num: u32,
    pub version: u32,
    pub ram_start: u32,
    pub ext_start: u32,
    pub end_mem: u32,
    pub stack_size: u32,
    pub start_function_address: u32,
    pub decoding_table_address: u32,
    pub checksum: u32,
}

/// The outcome of decoding a Glulx header from `s`: the nine fields at
/// their fixed offsets, once the buffer is long enough and the leading
/// magic number is right.
pub open spec fn spec_parse_glulx_header(s: Seq<u8>) -> Result<GlulxHeader, FileReadError> {
    if s.len() < HEADER_SIZE {
        Err(FileReadError::InvalidLength(s.len() as usize, HEADER_SIZE))
    } else if spec_be_u32(s, 0) != GLUL_AS_NUM {
        Err(FileReadError::UnexpectedStartingIdentifier(BlorbChunkType::EXEC_GLUL))
    } else {
        Ok(
            GlulxHeader {
                magic_num: spec_be_u32(s, 0),
                version: spec_be_u32(s, 4),
                ram_start: spec_be_u32(s, 8),
                ext_start: spec_be_u32(s, 12),
                end_mem: spec_be_u32(s, 16),
                stack_size: spec_be_u32(s, 20),
                start_function_address: spec_be_u32(s, 24),
                decoding_table_address: spec_be_u32(s, 28),
                checksum: spec_be_u32(s, 32),
            },
        )
    }
}

impl GlulxHeader {
    /// Decodes the fixed Glulx header from the start of `bytes`.
    /// A buffer shorter than the 36-byte header is an invalid length;
    /// a wrong magic number is an unexpected starting identifier.
    pub fn try_from(bytes: &[u8]) -> (r: Result<GlulxHeader, FileReadError>)
        ensures
            r == spec_parse_glulx_header(bytes@),
    {
        if bytes.len() < HEADER_SIZE {
            return Err(FileReadError::InvalidLength(bytes.len(), HEADER_SIZE));
        }
        let magic_num = crate::be_u32_at(bytes, 0);
        if magic_num != GLUL_AS_NUM {
            return Err(FileReadError::UnexpectedStartingIdentifier(BlorbChunkType::EXEC_GLUL));
        }
        Ok(
            GlulxHeader {
                magic_num,
                version: crate::be_u32_at(bytes, 4),
                ram_start: crate::be_u32_at(bytes, 8),
                ext_start: crate::be_u32_at(bytes, 12),
                end_mem: crate::be_u32_at(bytes, 16),
                stack_size: crate::be_u32_at(bytes, 20),
                start_function_address: crate::be_u32_at(bytes, 24),
                decoding_table_address: crate::be_u32_at(bytes, 28),
                checksum: crate::be_u32_at(bytes, 32),
            },
        )
    }
}

/// The optional 24-byte debugging companion of a Glulx header: a
/// signature, three 32-bit fields, a 16-bit game version and a 6-byte
/// serial number.
#[derive(Copy, Clone, Eq, PartialEq, Hash, Debug)]
pub struct GlulxDebuggingHeader {
    pub id: u32,
    pub memory_layout: u32,
    pub inform_version: u32,
    pub glulx_compiler_version: u32,
    pub game_version: u16,
    pub game_serial_number: [u8; 6],
}

/// Whether `s` starts with a decodable debugging header: long enough,
/// with the debugging signature in front.
pub open spec fn spec_debug_header_ok(s: Seq<u8>) -> bool {
    s.len() >= DEBUGGING_HEADER_SIZE && spec_be_u32(s, 0) == INFO_AS_NUM
}

/// What a debugging header decoded from `s` holds: each field taken
/// big-endian from its fixed offset, and the serial number as the six
/// raw bytes after the 16-bit game version.
pub open spec fn spec_debug_header_fields(s: Seq<u8>, h: GlulxDebuggingHeader) -> bool {
    &&& h.id == spec_be_u32(s, 0)
    &&& h.memory_layout == spec_be_u32(s, 4)
    &&& h.inform_version == spec_be_u32(s, 8)
    &&& h.glulx_compiler_version == spec_be_u32(s, 12)
    &&& h.game_version == spec_be_u16(s, 16)
    &&& h.game_serial_number@ == s.subrange(18, 24)
}

impl GlulxDebuggingHeader {
    /// Decodes the debugging header from the start of `value`.
    /// A buffer shorter than 24 bytes is an invalid length; a wrong
    /// signature is an unexpected starting identifier.
    pub fn try_from(value: &[u8]) -> (r: Result<GlulxDebuggingHeader, FileReadError>)
        ensures
            r is Ok <==> spec_debug_header_ok(value@),
            r matches Ok(h) ==> spec_debug_header_fields(value@, h),
            value@.len() < 24 ==> r == Err::<GlulxDebuggingHeader, FileReadError>(
                FileReadError::InvalidLength(value@.len() as usize, 24),
            ),
            value@.len() >= 24 && spec_be_u32(value@, 0) != INFO_AS_NUM ==> r == Err::<
                GlulxDebuggingHeader,
                FileReadError,
            >(FileReadError::UnexpectedStartingIdentifier(BlorbChunkType::INFO)),
    {
        if value.len() < DEBUGGING_HEADER_SIZE {
            return Err(FileReadError::InvalidLength(value.len(), DEBUGGING_HEADER_SIZE));
        }
        let id = crate::be_u32_at(value, 0);
        if id != INFO_AS_NUM {
            return Err(FileReadError::UnexpectedStartingIdentifier(BlorbChunkType::INFO));
        }
        let game_serial_number: [u8; 6] = [
            value[18],
            value[19],
            value[20],
            value[21],
            value[22],
            value[23],
        ];
        proof {
            assert(game_serial_number@ =~= value@.subrange(18, 24));
        }
        Ok(
            GlulxDebuggingHeader {
                id,
                memory_layout: crate::be_u32_at(value, 4),
                inform_version: crate::be_u32_at(value, 8),
                glulx_compiler_version: crate::be_u32_at(value, 12),
                game_version: crate::be_u16_at(value, 16),
                game_serial_number,
            },
        )
    }
}

/// The four bytes of the Glulx magic signature.
pub open spec fn spec_glul_magic() -> Seq<u8> {
    seq![0x47u8, 0x6cu8, 0x75u8, 0x6cu8]
}

proof fn lemma_be_u32_glul_bytes(s: Seq<u8>)
    requires
        s.len() >= 4,
        spec_be_u32(s, 0) == GLUL_AS_NUM,
    ensures
        s[0] == 0x47u8,
        s[1] == 0x6cu8,
        s[2] == 0x75u8,
        s[3] == 0x6cu8,
{
    let b0 = s[0] as int;
    let b1 = s[1] as int;
    let b2 = s[2] as int;
    let b3 = s[3] as int;
    assert(b0 * 0x1000000 + b1 * 0x10000 + b2 * 0x100 + b3 == 0x476c756c);
    assert(b1 * 0x10000 + b2 * 0x100 + b3 <= 0xffffff);
    assert(b0 == 0x47);
    assert(b1 == 0x6c);
    assert(b2 == 0x75);
    assert(b3 == 0x6c);
}

/// Flipping any single byte of the four-byte Glulx magic makes header
/// decoding fail with the unexpected-starting-identifier error, for
/// every buffer long enough to hold a header.
pub proof fn lemma_magic_byte_flip(s: Seq<u8>, i: int)
    requires
        s.len() >= 36,
        0 <= i < 4,
        s[i] != spec_glul_magic()[i],
    ensures
        spec_parse_glulx_header(s) == Err::<GlulxHeader, FileReadError>(
            FileReadError::UnexpectedStartingIdentifier(BlorbChunkType::EXEC_GLUL),
        ),
{
    if spec_be_u32(s, 0) == GLUL_AS_NUM {
        lemma_be_u32_glul_bytes(s);
        assert(false);
    }
}

/// A decoded Glulx executable image: the fixed header, the debugging
/// header when one follows it, and a borrowed view of the whole image
/// as memory for an executing interpreter.
#[derive(Copy, Clone)]
pub struct UlxReader<'a> {
    pub header: GlulxHeader,
    pub debugging_header: Option<GlulxDebuggingHeader>,
    pub memory: &'a [u8],
}

impl<'a> UlxReader<'a> {
    /// Whether this reader is exactly what decoding the image bytes
    /// `image` yields: the header fields, the optional debugging header
    /// from the bytes after the fixed header, and the whole image as
    /// memory.
    pub open spec fn parsed_from(self, image: Seq<u8>) -> bool {
        &&& spec_parse_glulx_header(image) matches Ok(h) && self.header == h
        &&& self.memory@ == image
        &&& (self.debugging_header is Some <==> spec_debug_header_ok(image.skip(36)))
        &&& (self.debugging_header matches Some(d) ==> spec_debug_header_fields(
            image.skip(36),
            d,
        ))
    }

    /// Decodes a whole Glulx image: the fixed header must decode, and
    /// the debugging header is kept only when the bytes after the fixed
    /// header carry one.
    pub fn try_from(value: &'a [u8]) -> (r: Result<UlxReader<'a>, FileReadError>)
        ensures
            r is Ok <==> spec_parse_glulx_header(value@) is Ok,
            r matches Ok(u) ==> u.parsed_from(value@),
            r matches Err(e) ==> spec_parse_glulx_header(value@) == Err::<
                GlulxHeader,
                FileReadError,
            >(e),
    {
        let header = match GlulxHeader::try_from(value) {
            Ok(h) => h,
            Err(e) => {
                return Err(e);
            },
        };
        let debugging_header = match GlulxDebuggingHeader::try_from(
            &value[HEADER_SIZE..value.len()],
        ) {
            Ok(d) => Some(d),
            Err(_) => None,
        };
        Ok(UlxReader { header, debugging_header, memory: value })
    }
}

} // verus!
