//! Reader for chunked interactive-fiction resource containers ("Blorb")
//! and the Glulx executable images they may carry.
//!
//! The whole library works on a single caller-owned byte buffer; every
//! parsed structure borrows from it. All multi-byte integers in the
//! formats are big-endian.

use vstd::prelude::*;

pub mod blorb_chunk_types;
pub mod blorb_reader;
pub mod ulx_reader;

use crate::blorb_chunk_types::BlorbChunkType;
use crate::blorb_reader::{spec_parse_container, BlorbReader};
use crate::ulx_reader::{spec_parse_glulx_header, UlxReader};

verus! {

/// A buffer resolved to one of the two recognized game-file shapes: a
/// bare Glulx executable image, or a container wrapping one.
pub enum GameType<'a> {
    Ulx(UlxReader<'a>),
    Blorb(BlorbReader<'a>),
}

impl<'a> GameType<'a> {
    /// Decides what `value` holds: a buffer that decodes as a Glulx
    /// image is the bare-image variant, even when it could also be read
    /// another way; otherwise a buffer that reads as a container is the
    /// container variant; anything else is an unknown file type.
    pub fn try_from(value: &'a [u8]) -> (r: Result<GameType<'a>, FileReadError>)
        ensures
            spec_parse_glulx_header(value@) is Ok ==> (r matches Ok(g) && g matches GameType::Ulx(
                u,
            ) && u.parsed_from(value@)),
            spec_parse_glulx_header(value@) is Err && spec_parse_container(value@) is Ok ==> (r
                matches Ok(g) && g matches GameType::Blorb(b) && b@ == spec_parse_container(
                value@,
            )->Ok_0),
            spec_parse_glulx_header(value@) is Err && spec_parse_container(value@) is Err ==> r
                is Err && r->Err_0 == FileReadError::UnknownFileType,
    {
        match UlxReader::try_from(value) {
            Ok(ulx) => Ok(GameType::Ulx(ulx)),
            Err(_) => match BlorbReader::try_from(value) {
                Ok(blorb) => Ok(GameType::Blorb(blorb)),
                Err(_) => Err(FileReadError::UnknownFileType),
            },
        }
    }

    /// The executable image this game file holds. A bare image is
    /// itself; a container must hold a decodable Glulx executable at
    /// resource id 0 — a container without one is not a playable game
    /// file and is ruled out by the precondition.
    pub fn get_exec(&self) -> (r: UlxReader<'a>)
        requires
            self matches GameType::Blorb(b) ==> b@.execs.contains_key(0)
                && b@.execs[0].data is Executable && spec_parse_glulx_header(
                b@.execs[0].data->Executable_0,
            ) is Ok,
        ensures
            self matches GameType::Ulx(u) ==> r == u,
            self matches GameType::Blorb(b) ==> r.parsed_from(b@.execs[0].data->Executable_0),
    {
        match self {
            GameType::Ulx(ulx) => *ulx,
            GameType::Blorb(blorb) => match blorb.get_exec(0) {
                Some(u) => u,
                None => vstd::pervasive::unreached(),
            },
        }
    }
}

/// The big-endian 32-bit unsigned integer formed by the four bytes of `s`
/// starting at offset `i`.
pub open spec fn spec_be_u32(s: Seq<u8>, i: int) -> u32
    recommends
        0 <= i,
        i + 4 <= s.len(),
{
    (s[i] * 0x1000000 + s[i + 1] * 0x10000 + s[i + 2] * 0x100 + s[i + 3]) as u32
}

/// Reads the big-endian `u32` held in the first four bytes of `input`.
/// A shorter slice is reported as an invalid length rather than read
/// out of range.
pub fn read_be_u32(input: &[u8]) -> (r: Result<u32, FileReadError>)
    ensures
        input@.len() >= 4 ==> r == Ok::<u32, FileReadError>(spec_be_u32(input@, 0)),
        input@.len() < 4 ==> r == Err::<u32, FileReadError>(
            FileReadError::InvalidLength(input@.len() as usize, 4),
        ),
{
    if input.len() < 4 {
        return Err(FileReadError::InvalidLength(input.len(), 4));
    }
    Ok(
        (input[0] as u32) * 0x1000000 + (input[1] as u32) * 0x10000 + (input[2] as u32) * 0x100
            + (input[3] as u32),
    )
}

/// The big-endian 16-bit unsigned integer formed by the two bytes of `s`
/// starting at offset `i`.
pub open spec fn spec_be_u16(s: Seq<u8>, i: int) -> u16
    recommends
        0 <= i,
        i + 2 <= s.len(),
{
    (s[i] * 0x100 + s[i + 1]) as u16
}

/// The big-endian `u32` at offset `off` of `v`; the caller owes the four
/// bytes.
pub(crate) fn be_u32_at(v: &[u8], off: usize) -> (r: u32)
    requires
        off + 4 <= v@.len(),
    ensures
        r == spec_be_u32(v@, off as int),
{
    let b0 = v[off] as u32;
    let b1 = v[off + 1] as u32;
    let b2 = v[off + 2] as u32;
    let b3 = v[off + 3] as u32;
    b0 * 0x1000000 + b1 * 0x10000 + b2 * 0x100 + b3
}

/// The big-endian `u16` at offset `off` of `v`; the caller owes the two
/// bytes.
pub(crate) fn be_u16_at(v: &[u8], off: usize) -> (r: u16)
    requires
        off + 2 <= v@.len(),
    ensures
        r == spec_be_u16(v@, off as int),
{
    (v[off] as u16) * 0x100 + (v[off + 1] as u16)
}

/// Every way a parse attempt can fail. Each failure is terminal for the
/// operation that raised it; nothing is retried and no partial structure
/// is handed back.
#[derive(Debug, Eq, PartialEq, Copy, Clone, Hash)]
pub enum FileReadError {
    /// A fixed-position tag did not hold its required value; the payload
    /// names the tag that was expected there.
    UnexpectedStartingIdentifier(BlorbChunkType),
    /// A declared or required length does not match reality. Actual and
    /// expected.
    InvalidLength(usize, usize),
    /// A four-byte tag outside the closed recognized set.
    UnknownIdentifier(usize),
    /// A byte range could not be reinterpreted as the value it should hold.
    InvalidConversion,
    /// The buffer fits neither a bare executable image nor a container.
    UnknownFileType,
}

} // verus!
