//! The container reader: parsing one chunk, building the resource
//! index that maps (category, id) to a chunk, and the accessors that
//! look resources up.
//!
//! Every structure here borrows from the single caller-owned buffer;
//! nothing copies payload bytes.

use vstd::prelude::*;

use crate::blorb_chunk_types::{spec_kind_of_tag, spec_tag_value, BlorbChunkType};
use crate::ulx_reader::{spec_parse_glulx_header, UlxReader};
use crate::{be_u32_at, spec_be_u32, FileReadError};

verus! {

// ---------------------------------------------------------------------
// The image-decoder collaborators.
//
// A picture chunk's payload is handed to the image library's PNG or
// JPEG decoder as soon as the chunk is parsed; decoding pixels is the
// caller's business, so the decoder value itself stays opaque here.
// ---------------------------------------------------------------------

/// A live PNG decoder over a borrowed payload. The decoder type's own
/// generic parameter carries a `std::io` bound that cannot be declared
/// to the verifier, so the handle holds it opaquely.
#[verifier::external_body]
pub struct PngHandle<'a>(image::codecs::png::PngDecoder<&'a [u8]>);

/// Relies on image's `JpegDecoder` type, held opaquely as a live
/// decoder over a borrowed payload.
#[verifier::external_type_specification]
#[verifier::external_body]
#[verifier::reject_recursive_types(R)]
pub struct ExJpegDecoder<R>(image::codecs::jpeg::JpegDecoder<R>);

/// Whether the image library accepts `data` as the start of a PNG
/// stream; a fixed function of the bytes alone.
pub uninterp spec fn spec_png_accepts(data: Seq<u8>) -> bool;

/// Whether the image library accepts `data` as the start of a JPEG
/// stream; a fixed function of the bytes alone.
pub uninterp spec fn spec_jpeg_accepts(data: Seq<u8>) -> bool;

/// Relies on image's `PngDecoder::new`: it reads only from the given
/// bytes, so whether it returns a decoder is a function of `data` alone.
#[verifier::external_body]
fn new_png_decoder<'a>(data: &'a [u8]) -> (r: Option<PngHandle<'a>>)
    ensures
        r is Some <==> spec_png_accepts(data@),
{
    image::codecs::png::PngDecoder::new(data).ok().map(PngHandle)
}

/// Relies on image's `JpegDecoder::new`: it reads only from the given
/// bytes, so whether it returns a decoder is a function of `data` alone.
#[verifier::external_body]
fn new_jpeg_decoder<'a>(data: &'a [u8]) -> (r: Option<image::codecs::jpeg::JpegDecoder<&'a [u8]>>)
    ensures
        r is Some <==> spec_jpeg_accepts(data@),
{
    image::codecs::jpeg::JpegDecoder::new(data).ok()
}

// ---------------------------------------------------------------------
// Chunks.
// ---------------------------------------------------------------------

/// A parsed chunk's payload. Picture payloads are held as a live
/// decoder over the payload bytes next to the bytes themselves; a Glulx
/// executable payload and every other kind stay raw byte views.
pub enum ChunkData<'a> {
    Executable(&'a [u8]),
    PNG(PngHandle<'a>, &'a [u8]),
    JPG(image::codecs::jpeg::JpegDecoder<&'a [u8]>, &'a [u8]),
    Raw(&'a [u8]),
}

/// The mathematical shadow of `ChunkData`: which interpretation the
/// payload got, and the payload bytes.
pub enum SpecChunkData {
    Executable(Seq<u8>),
    Png(Seq<u8>),
    Jpg(Seq<u8>),
    Raw(Seq<u8>),
}

impl<'a> View for ChunkData<'a> {
    type V = SpecChunkData;

    open spec fn view(&self) -> SpecChunkData {
        match self {
            ChunkData::Executable(d) => SpecChunkData::Executable(d@),
            ChunkData::PNG(_, d) => SpecChunkData::Png(d@),
            ChunkData::JPG(_, d) => SpecChunkData::Jpg(d@),
            ChunkData::Raw(d) => SpecChunkData::Raw(d@),
        }
    }
}

/// A parsed unit of the container: its kind and its payload.
pub struct Chunk<'a> {
    pub chunk_type: BlorbChunkType,
    pub data: ChunkData<'a>,
}

/// The mathematical shadow of `Chunk`.
pub struct SpecChunk {
    pub chunk_type: BlorbChunkType,
    pub data: SpecChunkData,
}

impl<'a> View for Chunk<'a> {
    type V = SpecChunk;

    open spec fn view(&self) -> SpecChunk {
        SpecChunk { chunk_type: self.chunk_type, data: self.data@ }
    }
}

/// The outcome of parsing one chunk from the start of `s`: an 8-byte
/// header of tag and payload length, then the payload, which must lie
/// within `s`. A picture payload must also be accepted by the matching
/// image decoder.
pub open spec fn spec_parse_chunk(s: Seq<u8>) -> Result<SpecChunk, FileReadError> {
    if s.len() < 8 {
        Err(FileReadError::InvalidLength(s.len() as usize, 8))
    } else {
        match spec_kind_of_tag(spec_be_u32(s, 0)) {
            None => Err(FileReadError::UnknownIdentifier(spec_be_u32(s, 0) as usize)),
            Some(kind) => {
                let len = spec_be_u32(s, 4) as int;
                if len > s.len() - 8 {
                    Err(
                        FileReadError::InvalidLength(
                            (s.len() - 8) as usize,
                            spec_be_u32(s, 4) as usize,
                        ),
                    )
                } else {
                    let payload = s.subrange(8, 8 + len);
                    if kind == BlorbChunkType::PICTURE_PNG {
                        if spec_png_accepts(payload) {
                            Ok(SpecChunk { chunk_type: kind, data: SpecChunkData::Png(payload) })
                        } else {
                            Err(FileReadError::InvalidConversion)
                        }
                    } else if kind == BlorbChunkType::PICTURE_JPEG {
                        if spec_jpeg_accepts(payload) {
                            Ok(SpecChunk { chunk_type: kind, data: SpecChunkData::Jpg(payload) })
                        } else {
                            Err(FileReadError::InvalidConversion)
                        }
                    } else if kind == BlorbChunkType::EXEC_GLUL {
                        Ok(SpecChunk { chunk_type: kind, data: SpecChunkData::Executable(payload) })
                    } else {
                        Ok(SpecChunk { chunk_type: kind, data: SpecChunkData::Raw(payload) })
                    }
                }
            },
        }
    }
}

impl<'a> Chunk<'a> {
    /// Parses one chunk from the start of `value`. A buffer shorter
    /// than the 8-byte header is an invalid length; an unrecognized tag
    /// is an unknown identifier; a declared payload running past the
    /// buffer is an invalid length of the bytes that are there against
    /// the bytes declared; a picture payload the image library rejects
    /// is an invalid conversion.
    pub fn try_from(value: &'a [u8]) -> (r: Result<Chunk<'a>, FileReadError>)
        ensures
            r is Ok <==> spec_parse_chunk(value@) is Ok,
            r matches Ok(c) ==> spec_parse_chunk(value@) == Ok::<SpecChunk, FileReadError>(c@),
            r matches Err(e) ==> spec_parse_chunk(value@) == Err::<SpecChunk, FileReadError>(e),
    {
        if value.len() < 8 {
            return Err(FileReadError::InvalidLength(value.len(), 8));
        }
        let chunk_type = match BlorbChunkType::try_from(be_u32_at(value, 0)) {
            Ok(k) => k,
            Err(e) => {
                return Err(e);
            },
        };
        let len = be_u32_at(value, 4);
        if (len as usize) > value.len() - 8 {
            return Err(FileReadError::InvalidLength(value.len() - 8, len as usize));
        }
        let payload = &value[8..8 + len as usize];
        let data = match chunk_type {
            BlorbChunkType::PICTURE_PNG => match new_png_decoder(payload) {
                Some(d) => ChunkData::PNG(d, payload),
                None => {
                    return Err(FileReadError::InvalidConversion);
                },
            },
            BlorbChunkType::PICTURE_JPEG => match new_jpeg_decoder(payload) {
                Some(d) => ChunkData::JPG(d, payload),
                None => {
                    return Err(FileReadError::InvalidConversion);
                },
            },
            BlorbChunkType::EXEC_GLUL => ChunkData::Executable(payload),
            _ => ChunkData::Raw(payload),
        };
        Ok(Chunk { chunk_type, data })
    }
}

// ---------------------------------------------------------------------
// Index buckets.
//
// Each resource category keeps its entries as a short association list
// with pairwise-distinct ids; its mathematical content is the map built
// by folding the list from the front, so a later entry for an id
// overrides an earlier one.
// ---------------------------------------------------------------------

/// No two entries share an id.
pub open spec fn distinct_keys<'a>(entries: Seq<(i32, Chunk<'a>)>) -> bool {
    forall|i: int, j: int| 0 <= i < j < entries.len() ==> entries[i].0 != entries[j].0
}

/// The map an entry list denotes: entries apply in list order, so the
/// last entry for an id wins.
pub open spec fn spec_bucket_map<'a>(entries: Seq<(i32, Chunk<'a>)>) -> Map<i32, SpecChunk>
    decreases entries.len(),
{
    if entries.len() == 0 {
        Map::empty()
    } else {
        spec_bucket_map(entries.drop_last()).insert(entries.last().0, entries.last().1@)
    }
}

proof fn lemma_bucket_map_contains<'a>(entries: Seq<(i32, Chunk<'a>)>, id: i32)
    ensures
        spec_bucket_map(entries).contains_key(id) <==> exists|i: int|
            0 <= i < entries.len() && entries[i].0 == id,
    decreases entries.len(),
{
    if entries.len() > 0 {
        lemma_bucket_map_contains(entries.drop_last(), id);
        if entries.last().0 != id && spec_bucket_map(entries).contains_key(id) {
            let i = choose|i: int| 0 <= i < entries.drop_last().len() && entries.drop_last()[i].0
                == id;
            assert(entries[i].0 == id);
        }
        if exists|i: int| 0 <= i < entries.len() && entries[i].0 == id {
            let i = choose|i: int| 0 <= i < entries.len() && entries[i].0 == id;
            if i < entries.len() - 1 {
                assert(entries.drop_last()[i].0 == id);
            }
        }
    }
}

proof fn lemma_bucket_map_at<'a>(entries: Seq<(i32, Chunk<'a>)>, k: int, id: i32)
    requires
        distinct_keys(entries),
        0 <= k < entries.len(),
        entries[k].0 == id,
    ensures
        spec_bucket_map(entries).contains_key(id),
        spec_bucket_map(entries)[id] == entries[k].1@,
    decreases entries.len(),
{
    if k < entries.len() - 1 {
        lemma_bucket_map_at(entries.drop_last(), k, id);
    }
}

proof fn lemma_bucket_map_update<'a>(entries: Seq<(i32, Chunk<'a>)>, k: int, id: i32, c: Chunk<'a>)
    requires
        distinct_keys(entries),
        0 <= k < entries.len(),
        entries[k].0 == id,
    ensures
        spec_bucket_map(entries.update(k, (id, c))) == spec_bucket_map(entries).insert(id, c@),
    decreases entries.len(),
{
    let updated = entries.update(k, (id, c));
    if k == entries.len() - 1 {
        assert(updated.drop_last() =~= entries.drop_last());
    } else {
        assert(updated.drop_last() =~= entries.drop_last().update(k, (id, c)));
        lemma_bucket_map_update(entries.drop_last(), k, id, c);
        assert(entries.last().0 != id);
    }
    assert(spec_bucket_map(entries.update(k, (id, c))) =~= spec_bucket_map(entries).insert(
        id,
        c@,
    ));
}

/// Puts `(id, chunk)` into the list, overriding an existing entry for
/// `id` in place, so ids stay pairwise distinct.
fn insert_entry<'a>(entries: &mut Vec<(i32, Chunk<'a>)>, id: i32, chunk: Chunk<'a>)
    requires
        distinct_keys(old(entries)@),
    ensures
        distinct_keys(final(entries)@),
        spec_bucket_map(final(entries)@) == spec_bucket_map(old(entries)@).insert(id, chunk@),
{
    let mut i: usize = 0;
    while i < entries.len()
        invariant
            entries@ == old(entries)@,
            distinct_keys(entries@),
            0 <= i <= entries@.len(),
            forall|j: int| 0 <= j < i ==> entries@[j].0 != id,
        decreases entries@.len() - i,
    {
        if entries[i].0 == id {
            let ghost before = entries@;
            entries[i] = (id, chunk);
            proof {
                assert(entries@ == before.update(i as int, (id, chunk)));
                lemma_bucket_map_update(before, i as int, id, chunk);
            }
            return ;
        }
        i += 1;
    }
    proof {
        let pushed = entries@.push((id, chunk));
        assert(pushed.drop_last() =~= entries@);
        assert(spec_bucket_map(pushed) =~= spec_bucket_map(entries@).insert(id, chunk@));
    }
    entries.push((id, chunk));
}

/// Finds the entry for `id`, if the list has one.
fn bucket_get<'a, 'b>(entries: &'b Vec<(i32, Chunk<'a>)>, id: i32) -> (r: Option<&'b Chunk<'a>>)
    requires
        distinct_keys(entries@),
    ensures
        r is Some <==> spec_bucket_map(entries@).contains_key(id),
        r matches Some(c) ==> spec_bucket_map(entries@).contains_key(id) && c@ == spec_bucket_map(
            entries@,
        )[id],
{
    let mut i: usize = 0;
    while i < entries.len()
        invariant
            distinct_keys(entries@),
            0 <= i <= entries@.len(),
            forall|j: int| 0 <= j < i ==> entries@[j].0 != id,
        decreases entries@.len() - i,
    {
        if entries[i].0 == id {
            proof {
                lemma_bucket_map_at(entries@, i as int, id);
            }
            return Some(&entries[i].1);
        }
        i += 1;
    }
    proof {
        lemma_bucket_map_contains(entries@, id);
    }
    None
}

// ---------------------------------------------------------------------
// The resource index.
// ---------------------------------------------------------------------

/// The mathematical shadow of `FileIndex`: one map per resource
/// category, from resource id to the chunk the table pointed at.
pub struct SpecFileIndex {
    pub pictures: Map<i32, SpecChunk>,
    pub sounds: Map<i32, SpecChunk>,
    pub datas: Map<i32, SpecChunk>,
    pub execs: Map<i32, SpecChunk>,
}

impl SpecFileIndex {
    /// The map for a resource category; `None` for a kind that is not
    /// one of the four categories.
    pub open spec fn bucket(self, cat: BlorbChunkType) -> Option<Map<i32, SpecChunk>> {
        if cat == BlorbChunkType::PICTURE {
            Some(self.pictures)
        } else if cat == BlorbChunkType::SOUND {
            Some(self.sounds)
        } else if cat == BlorbChunkType::DATA {
            Some(self.datas)
        } else if cat == BlorbChunkType::EXECUTABLE {
            Some(self.execs)
        } else {
            None
        }
    }
}

/// The index with all four categories present and empty.
pub open spec fn spec_index_empty() -> SpecFileIndex {
    SpecFileIndex {
        pictures: Map::empty(),
        sounds: Map::empty(),
        datas: Map::empty(),
        execs: Map::empty(),
    }
}

/// The category a resource-index entry's tag selects: only the four
/// resource categories are admitted here.
pub open spec fn spec_category_of_tag(value: u32) -> Option<BlorbChunkType> {
    if value == spec_tag_value(BlorbChunkType::PICTURE) {
        Some(BlorbChunkType::PICTURE)
    } else if value == spec_tag_value(BlorbChunkType::SOUND) {
        Some(BlorbChunkType::SOUND)
    } else if value == spec_tag_value(BlorbChunkType::DATA) {
        Some(BlorbChunkType::DATA)
    } else if value == spec_tag_value(BlorbChunkType::EXECUTABLE) {
        Some(BlorbChunkType::EXECUTABLE)
    } else {
        None
    }
}

/// `idx` with `(id, c)` put into the bucket of category `cat`.
pub open spec fn spec_index_insert(
    idx: SpecFileIndex,
    cat: BlorbChunkType,
    id: i32,
    c: SpecChunk,
) -> SpecFileIndex
    recommends
        spec_category_of_tag(spec_tag_value(cat)) is Some,
{
    if cat == BlorbChunkType::PICTURE {
        SpecFileIndex {
            pictures: idx.pictures.insert(id, c),
            sounds: idx.sounds,
            datas: idx.datas,
            execs: idx.execs,
        }
    } else if cat == BlorbChunkType::SOUND {
        SpecFileIndex {
            pictures: idx.pictures,
            sounds: idx.sounds.insert(id, c),
            datas: idx.datas,
            execs: idx.execs,
        }
    } else if cat == BlorbChunkType::DATA {
        SpecFileIndex {
            pictures: idx.pictures,
            sounds: idx.sounds,
            datas: idx.datas.insert(id, c),
            execs: idx.execs,
        }
    } else {
        SpecFileIndex {
            pictures: idx.pictures,
            sounds: idx.sounds,
            datas: idx.datas,
            execs: idx.execs.insert(id, c),
        }
    }
}

/// The tag of table entry `i`: the table starts 12 bytes into the
/// index chunk and each entry takes 12 bytes.
pub open spec fn spec_entry_tag(s: Seq<u8>, i: int) -> u32 {
    spec_be_u32(s, 12 + 12 * i)
}

/// The signed 32-bit resource id of table entry `i`.
pub open spec fn spec_entry_id(s: Seq<u8>, i: int) -> i32 {
    spec_be_u32(s, 12 + 12 * i + 4) as i32
}

/// The declared address of table entry `i`.
pub open spec fn spec_entry_addr(s: Seq<u8>, i: int) -> u32 {
    spec_be_u32(s, 12 + 12 * i + 8)
}

/// The chunk table entry `i` points at. The entry's address counts from
/// 12 bytes before the index chunk, so it lands at offset `address - 12`
/// of `s`; the chunk is parsed from there to the end of the buffer, its
/// own declared length bounding the payload. An address inside those
/// first 12 bytes, or past the end of `s`, cannot be resolved.
pub open spec fn spec_entry_chunk(s: Seq<u8>, i: int) -> Result<SpecChunk, FileReadError> {
    let addr = spec_entry_addr(s, i) as int;
    if addr < 12 {
        Err(FileReadError::InvalidLength(spec_entry_addr(s, i) as usize, 12))
    } else if addr - 12 > s.len() {
        Err(FileReadError::InvalidLength(s.len() as usize, (addr - 12) as usize))
    } else {
        spec_parse_chunk(s.subrange(addr - 12, s.len() as int))
    }
}

/// What handling table entry `i` yields: its category, its id, and the
/// chunk it points at, or the error that stops the build.
pub open spec fn spec_entry_step(s: Seq<u8>, i: int) -> Result<
    (BlorbChunkType, i32, SpecChunk),
    FileReadError,
> {
    match spec_category_of_tag(spec_entry_tag(s, i)) {
        None => Err(FileReadError::UnknownIdentifier(spec_entry_tag(s, i) as usize)),
        Some(cat) => match spec_entry_chunk(s, i) {
            Err(e) => Err(e),
            Ok(c) => Ok((cat, spec_entry_id(s, i), c)),
        },
    }
}

/// The index the first `n` table entries build, entry by entry in table
/// order; the first entry that cannot be handled decides the error.
pub open spec fn spec_build_entries(s: Seq<u8>, n: int) -> Result<SpecFileIndex, FileReadError>
    decreases n,
{
    if n <= 0 {
        Ok(spec_index_empty())
    } else {
        match spec_build_entries(s, n - 1) {
            Err(e) => Err(e),
            Ok(idx) => match spec_entry_step(s, n - 1) {
                Err(e) => Err(e),
                Ok((cat, id, c)) => Ok(spec_index_insert(idx, cat, id, c)),
            },
        }
    }
}

/// The outcome of building the index from `s`, the bytes following the
/// container envelope: the resource-index tag, the entry count at
/// offset 8, room for the whole table, then the entries.
pub open spec fn spec_build_index(s: Seq<u8>) -> Result<SpecFileIndex, FileReadError> {
    if s.len() < 4 {
        Err(FileReadError::InvalidLength(s.len() as usize, 4))
    } else if spec_be_u32(s, 0) != spec_tag_value(BlorbChunkType::RESOURCE_INDEX) {
        Err(FileReadError::UnexpectedStartingIdentifier(BlorbChunkType::RESOURCE_INDEX))
    } else if s.len() < 12 {
        Err(FileReadError::InvalidLength(s.len() as usize, 12))
    } else {
        let n = spec_be_u32(s, 8);
        if ((s.len() - 12) as int) / 12 < n {
            Err(
                FileReadError::InvalidLength(
                    ((((s.len() - 12) as int) / 12) as usize),
                    n as usize,
                ),
            )
        } else {
            spec_build_entries(s, n as int)
        }
    }
}

/// Reads table entry `i` and parses the chunk it points at.
fn read_index_entry<'a>(value: &'a [u8], i: u32) -> (r: Result<
    (BlorbChunkType, i32, Chunk<'a>),
    FileReadError,
>)
    requires
        12 * (i as int) + 24 <= value@.len(),
        value@.len() <= usize::MAX,
    ensures
        r matches Ok((cat, id, chunk)) ==> spec_entry_step(value@, i as int) == Ok::<
            (BlorbChunkType, i32, SpecChunk),
            FileReadError,
        >((cat, id, chunk@)),
        r matches Err(e) ==> spec_entry_step(value@, i as int) == Err::<
            (BlorbChunkType, i32, SpecChunk),
            FileReadError,
        >(e),
{
    let off = 12 + (i as usize) * 12;
    let key_tag = be_u32_at(value, off);
    let cat: BlorbChunkType = if key_tag == BlorbChunkType::PICTURE.value() {
        BlorbChunkType::PICTURE
    } else if key_tag == BlorbChunkType::SOUND.value() {
        BlorbChunkType::SOUND
    } else if key_tag == BlorbChunkType::DATA.value() {
        BlorbChunkType::DATA
    } else if key_tag == BlorbChunkType::EXECUTABLE.value() {
        BlorbChunkType::EXECUTABLE
    } else {
        return Err(FileReadError::UnknownIdentifier(key_tag as usize));
    };
    let id = #[verifier::truncate] (be_u32_at(value, off + 4) as i32);
    let addr = be_u32_at(value, off + 8);
    if addr < 12 {
        return Err(FileReadError::InvalidLength(addr as usize, 12));
    }
    let start = (addr as usize) - 12;
    if start > value.len() {
        return Err(FileReadError::InvalidLength(value.len(), start));
    }
    let chunk_slice = &value[start..value.len()];
    match Chunk::try_from(chunk_slice) {
        Ok(chunk) => Ok((cat, id, chunk)),
        Err(e) => Err(e),
    }
}

proof fn lemma_build_entries_err_propagates(s: Seq<u8>, i: int, n: int)
    requires
        0 <= i < n,
        spec_build_entries(s, i + 1) is Err,
    ensures
        spec_build_entries(s, n) == spec_build_entries(s, i + 1),
    decreases n,
{
    if n > i + 1 {
        lemma_build_entries_err_propagates(s, i, n - 1);
    }
}

/// The two-level lookup structure a container's resource-index chunk
/// describes: for each of the four resource categories, the entries
/// that landed in it.
pub struct FileIndex<'a> {
    pictures: Vec<(i32, Chunk<'a>)>,
    sounds: Vec<(i32, Chunk<'a>)>,
    datas: Vec<(i32, Chunk<'a>)>,
    execs: Vec<(i32, Chunk<'a>)>,
}

impl<'a> FileIndex<'a> {
    #[verifier::type_invariant]
    spec fn wf(self) -> bool {
        &&& distinct_keys(self.pictures@)
        &&& distinct_keys(self.sounds@)
        &&& distinct_keys(self.datas@)
        &&& distinct_keys(self.execs@)
    }
}

impl<'a> View for FileIndex<'a> {
    type V = SpecFileIndex;

    closed spec fn view(&self) -> SpecFileIndex {
        SpecFileIndex {
            pictures: spec_bucket_map(self.pictures@),
            sounds: spec_bucket_map(self.sounds@),
            datas: spec_bucket_map(self.datas@),
            execs: spec_bucket_map(self.execs@),
        }
    }
}

impl<'a> FileIndex<'a> {
    /// Builds the index from `value`, the content following the
    /// container envelope's first two tags. Entries are handled in
    /// table order, and for a duplicated (category, id) the later entry
    /// wins.
    pub fn build_index(value: &'a [u8]) -> (r: Result<FileIndex<'a>, FileReadError>)
        ensures
            r is Ok <==> spec_build_index(value@) is Ok,
            r matches Ok(idx) ==> spec_build_index(value@) == Ok::<SpecFileIndex, FileReadError>(
                idx@,
            ),
            r matches Err(e) ==> spec_build_index(value@) == Err::<SpecFileIndex, FileReadError>(
                e,
            ),
    {
        if value.len() < 4 {
            return Err(FileReadError::InvalidLength(value.len(), 4));
        }
        if be_u32_at(value, 0) != BlorbChunkType::RESOURCE_INDEX.value() {
            return Err(FileReadError::UnexpectedStartingIdentifier(BlorbChunkType::RESOURCE_INDEX));
        }
        if value.len() < 12 {
            return Err(FileReadError::InvalidLength(value.len(), 12));
        }
        let num_in_index = be_u32_at(value, 8);
        if (num_in_index as usize) > (value.len() - 12) / 12 {
            return Err(FileReadError::InvalidLength((value.len() - 12) / 12, num_in_index as usize));
        }
        let mut pictures: Vec<(i32, Chunk<'a>)> = Vec::new();
        let mut sounds: Vec<(i32, Chunk<'a>)> = Vec::new();
        let mut datas: Vec<(i32, Chunk<'a>)> = Vec::new();
        let mut execs: Vec<(i32, Chunk<'a>)> = Vec::new();
        let mut i: u32 = 0;
        while i < num_in_index
            invariant
                i <= num_in_index,
                value@.len() <= usize::MAX,
                12 * (num_in_index as int) + 12 <= value@.len(),
                spec_build_index(value@) == spec_build_entries(value@, num_in_index as int),
                spec_build_entries(value@, i as int) is Ok,
                distinct_keys(pictures@),
                distinct_keys(sounds@),
                distinct_keys(datas@),
                distinct_keys(execs@),
                spec_bucket_map(pictures@) == spec_build_entries(value@, i as int)->Ok_0.pictures,
                spec_bucket_map(sounds@) == spec_build_entries(value@, i as int)->Ok_0.sounds,
                spec_bucket_map(datas@) == spec_build_entries(value@, i as int)->Ok_0.datas,
                spec_bucket_map(execs@) == spec_build_entries(value@, i as int)->Ok_0.execs,
            decreases num_in_index - i,
        {
            let (cat, id, chunk) = match read_index_entry(value, i) {
                Ok(entry) => entry,
                Err(e) => {
                    proof {
                        lemma_build_entries_err_propagates(value@, i as int, num_in_index as int);
                    }
                    return Err(e);
                },
            };
            proof {
                let s = value@;
                let ii = i as int;
                assert(spec_build_entries(s, ii + 1) == Ok::<SpecFileIndex, FileReadError>(
                    spec_index_insert(spec_build_entries(s, ii)->Ok_0, cat, id, chunk@),
                ));
            }
            match cat {
                BlorbChunkType::PICTURE => insert_entry(&mut pictures, id, chunk),
                BlorbChunkType::SOUND => insert_entry(&mut sounds, id, chunk),
                BlorbChunkType::DATA => insert_entry(&mut datas, id, chunk),
                _ => insert_entry(&mut execs, id, chunk),
            }
            i += 1;
        }
        Ok(FileIndex { pictures, sounds, datas, execs })
    }
}

// ---------------------------------------------------------------------
// Laws of the index.
// ---------------------------------------------------------------------

proof fn lemma_build_entries_prefix_ok(s: Seq<u8>, i: int, n: int)
    requires
        0 <= i <= n,
        spec_build_entries(s, n) is Ok,
    ensures
        spec_build_entries(s, i) is Ok,
    decreases n,
{
    if i < n {
        lemma_build_entries_prefix_ok(s, i, n - 1);
    }
}

/// The law of the lookup: a table entry whose (category, id) pair no
/// later entry repeats stands in the built index exactly as the chunk
/// parsed at offset `address - 12` of the index buffer, wherever the
/// entry stands in the table and whatever the other entries hold.
pub proof fn lemma_index_entry_lookup(s: Seq<u8>, n: int, i: int)
    requires
        spec_build_entries(s, n) is Ok,
        0 <= i < n,
        forall|j: int| i < j < n ==> !(spec_category_of_tag(spec_entry_tag(s, j))
            == spec_category_of_tag(spec_entry_tag(s, i)) && spec_entry_id(s, j) == spec_entry_id(
            s,
            i,
        )),
    ensures
        spec_category_of_tag(spec_entry_tag(s, i)) is Some,
        spec_entry_addr(s, i) >= 12,
        spec_entry_chunk(s, i) is Ok,
        ({
            let cat = spec_category_of_tag(spec_entry_tag(s, i))->Some_0;
            let id = spec_entry_id(s, i);
            let m = spec_build_entries(s, n)->Ok_0.bucket(cat)->Some_0;
            m.contains_key(id) && m[id] == spec_entry_chunk(s, i)->Ok_0
        }),
    decreases n,
{
    lemma_build_entries_prefix_ok(s, i + 1, n);
    assert(spec_entry_step(s, i) is Ok);
    if n == i + 1 {
    } else {
        lemma_index_entry_lookup(s, n - 1, i);
        assert(spec_entry_step(s, n - 1) is Ok);
    }
}

/// The address correction: a table entry whose address field holds `A`
/// resolves to the chunk parsed at offset `A - 12` of the index buffer,
/// because addresses count from the container's first byte, 12 bytes
/// before the buffer the builder works on.
pub proof fn lemma_entry_address_correction(s: Seq<u8>, i: int)
    requires
        spec_entry_addr(s, i) >= 12,
        spec_entry_addr(s, i) - 12 <= s.len(),
    ensures
        spec_entry_chunk(s, i) == spec_parse_chunk(
            s.subrange(spec_entry_addr(s, i) - 12, s.len() as int),
        ),
{
}

proof fn lemma_index_key_from_entry(s: Seq<u8>, n: int, cat: BlorbChunkType, id: i32)
    requires
        n >= 0,
        spec_build_entries(s, n) is Ok,
        spec_category_of_tag(spec_tag_value(cat)) is Some,
        spec_build_entries(s, n)->Ok_0.bucket(cat)->Some_0.contains_key(id),
    ensures
        exists|i: int|
            0 <= i < n && spec_category_of_tag(#[trigger] spec_entry_tag(s, i)) == Some(cat)
                && spec_entry_id(s, i) == id,
    decreases n,
{
    if n == 0 {
        assert(spec_build_entries(s, n)->Ok_0 == spec_index_empty());
    } else {
        let step = spec_entry_step(s, n - 1);
        if step->Ok_0.0 == cat && step->Ok_0.1 == id {
            assert(spec_category_of_tag(spec_entry_tag(s, n - 1)) == Some(cat));
            assert(spec_entry_id(s, n - 1) == id);
        } else {
            lemma_index_key_from_entry(s, n - 1, cat, id);
        }
    }
}

/// Table entries `i` of `s1` and `j` of `s2` carry the same category,
/// the same id, and resolve to the same chunk.
pub open spec fn spec_entries_agree(s1: Seq<u8>, i: int, s2: Seq<u8>, j: int) -> bool {
    &&& spec_category_of_tag(spec_entry_tag(s1, i)) == spec_category_of_tag(spec_entry_tag(s2, j))
    &&& spec_entry_id(s1, i) == spec_entry_id(s2, j)
    &&& spec_entry_chunk(s1, i) == spec_entry_chunk(s2, j)
}

/// No two of the first `n` table entries of `s` share a (category, id)
/// pair.
pub open spec fn spec_entries_distinct(s: Seq<u8>, n: int) -> bool {
    forall|i: int, j: int|
        0 <= i < j < n ==> !(spec_category_of_tag(#[trigger] spec_entry_tag(s, i))
            == spec_category_of_tag(#[trigger] spec_entry_tag(s, j)) && spec_entry_id(s, i)
            == spec_entry_id(s, j))
}

/// Some entry among the first `n2` of `s2` agrees with entry `i` of
/// `s1`.
pub open spec fn spec_has_agreeing_entry(s1: Seq<u8>, i: int, s2: Seq<u8>, n2: int) -> bool {
    exists|j: int| 0 <= j < n2 && spec_entries_agree(s1, i, s2, j)
}

#[verifier::spinoff_prover]
proof fn lemma_bucket_binding_transfers(
    s1: Seq<u8>,
    n1: int,
    s2: Seq<u8>,
    n2: int,
    cat: BlorbChunkType,
    id: i32,
)
    requires
        n1 >= 0,
        n2 >= 0,
        spec_build_entries(s1, n1) is Ok,
        spec_build_entries(s2, n2) is Ok,
        spec_entries_distinct(s1, n1),
        spec_entries_distinct(s2, n2),
        forall|i: int| 0 <= i < n1 ==> #[trigger] spec_has_agreeing_entry(s1, i, s2, n2),
        spec_category_of_tag(spec_tag_value(cat)) is Some,
        spec_build_entries(s1, n1)->Ok_0.bucket(cat)->Some_0.contains_key(id),
    ensures
        ({
            let m1 = spec_build_entries(s1, n1)->Ok_0.bucket(cat)->Some_0;
            let m2 = spec_build_entries(s2, n2)->Ok_0.bucket(cat)->Some_0;
            m2.contains_key(id) && m2[id] == m1[id]
        }),
{
    lemma_index_key_from_entry(s1, n1, cat, id);
    let i = choose|i: int|
        0 <= i < n1 && spec_category_of_tag(#[trigger] spec_entry_tag(s1, i)) == Some(cat)
            && spec_entry_id(s1, i) == id;
    lemma_index_entry_lookup(s1, n1, i);
    assert(spec_has_agreeing_entry(s1, i, s2, n2));
    let j = choose|j: int| 0 <= j < n2 && spec_entries_agree(s1, i, s2, j);
    lemma_index_entry_lookup(s2, n2, j);
}

/// The law of order independence: the built index is a function of
/// the set of table entries alone. Take two index buffers whose tables
/// hold agreeing entries — same category, same id, same resolved chunk
/// — in whatever order, with no (category, id) pair repeated in either.
/// Then for every category `cat` and id `id`, the two built indexes
/// hold the same binding: present in one exactly when present in the
/// other, and then the same chunk.
pub proof fn lemma_index_order_independence(
    s1: Seq<u8>,
    n1: int,
    s2: Seq<u8>,
    n2: int,
    cat: BlorbChunkType,
    id: i32,
)
    requires
        n1 >= 0,
        n2 >= 0,
        spec_build_entries(s1, n1) is Ok,
        spec_build_entries(s2, n2) is Ok,
        spec_entries_distinct(s1, n1),
        spec_entries_distinct(s2, n2),
        forall|i: int| 0 <= i < n1 ==> #[trigger] spec_has_agreeing_entry(s1, i, s2, n2),
        forall|j: int| 0 <= j < n2 ==> #[trigger] spec_has_agreeing_entry(s2, j, s1, n1),
        spec_category_of_tag(spec_tag_value(cat)) is Some,
    ensures
        ({
            let m1 = spec_build_entries(s1, n1)->Ok_0.bucket(cat)->Some_0;
            let m2 = spec_build_entries(s2, n2)->Ok_0.bucket(cat)->Some_0;
            &&& (m1.contains_key(id) <==> m2.contains_key(id))
            &&& (m1.contains_key(id) ==> m1[id] == m2[id])
        }),
{
    let m1 = spec_build_entries(s1, n1)->Ok_0.bucket(cat)->Some_0;
    let m2 = spec_build_entries(s2, n2)->Ok_0.bucket(cat)->Some_0;
    if m1.contains_key(id) {
        lemma_bucket_binding_transfers(s1, n1, s2, n2, cat, id);
    }
    if m2.contains_key(id) {
        lemma_bucket_binding_transfers(s2, n2, s1, n1, cat, id);
    }
}

/// A resource-index chunk that builds at all builds from exactly the
/// number of table entries its count field declares: nothing before or
/// after the table takes part.
pub proof fn lemma_index_folds_declared_count(s: Seq<u8>)
    requires
        spec_build_index(s) is Ok,
    ensures
        spec_build_index(s) == spec_build_entries(s, spec_be_u32(s, 8) as int),
{
}

/// A resource-index chunk that declares zero entries builds the empty
/// index: all four category buckets present and holding nothing.
pub proof fn lemma_zero_entries_empty_index(s: Seq<u8>)
    requires
        spec_build_index(s) is Ok,
        spec_be_u32(s, 8) == 0,
    ensures
        spec_build_index(s) == Ok::<SpecFileIndex, FileReadError>(spec_index_empty()),
{
}

// ---------------------------------------------------------------------
// The container reader.
// ---------------------------------------------------------------------

/// The outcome of reading a whole container from `s`. The checks run
/// in envelope order, each one as soon as its bytes are there: the form
/// tag, then the length field, which must equal the bytes remaining
/// after it, then the container sub-form tag; everything after those 12
/// bytes goes to the index builder.
pub open spec fn spec_parse_container(s: Seq<u8>) -> Result<SpecFileIndex, FileReadError> {
    if s.len() < 4 {
        Err(FileReadError::InvalidLength(s.len() as usize, 4))
    } else if spec_be_u32(s, 0) != spec_tag_value(BlorbChunkType::FORM) {
        Err(FileReadError::UnexpectedStartingIdentifier(BlorbChunkType::FORM))
    } else if s.len() < 8 {
        Err(FileReadError::InvalidLength(s.len() as usize, 8))
    } else if spec_be_u32(s, 4) != s.len() - 8 {
        Err(FileReadError::InvalidLength((s.len() - 8) as usize, spec_be_u32(s, 4) as usize))
    } else if s.len() < 12 {
        Err(FileReadError::InvalidLength(s.len() as usize, 12))
    } else if spec_be_u32(s, 8) != spec_tag_value(BlorbChunkType::IFRS) {
        Err(FileReadError::UnexpectedStartingIdentifier(BlorbChunkType::IFRS))
    } else {
        spec_build_index(s.skip(12))
    }
}

/// A container whose declared form length does not equal the bytes
/// remaining after the length field is rejected with exactly this
/// invalid-length error, whether the declared length is too long, too
/// short or zero.
pub proof fn lemma_form_length_mismatch(s: Seq<u8>)
    requires
        s.len() >= 8,
        spec_be_u32(s, 0) == spec_tag_value(BlorbChunkType::FORM),
        spec_be_u32(s, 4) != s.len() - 8,
    ensures
        spec_parse_container(s) == Err::<SpecFileIndex, FileReadError>(
            FileReadError::InvalidLength((s.len() - 8) as usize, spec_be_u32(s, 4) as usize),
        ),
{
}

/// A buffer whose first four bytes are not the form tag is rejected as
/// an unexpected starting identifier before anything else is looked at,
/// however short the rest of the envelope is.
pub proof fn lemma_form_tag_checked_first(s: Seq<u8>)
    requires
        s.len() >= 4,
        spec_be_u32(s, 0) != spec_tag_value(BlorbChunkType::FORM),
    ensures
        spec_parse_container(s) == Err::<SpecFileIndex, FileReadError>(
            FileReadError::UnexpectedStartingIdentifier(BlorbChunkType::FORM),
        ),
{
}

/// A validated container: its resource index, built once at
/// construction and immutable afterwards.
pub struct BlorbReader<'a> {
    file_index: FileIndex<'a>,
}

impl<'a> View for BlorbReader<'a> {
    type V = SpecFileIndex;

    closed spec fn view(&self) -> SpecFileIndex {
        self.file_index@
    }
}

impl<'a> BlorbReader<'a> {
    /// Validates the container envelope of `value` and builds the
    /// resource index from what follows it.
    pub fn try_from(value: &'a [u8]) -> (r: Result<BlorbReader<'a>, FileReadError>)
        ensures
            r is Ok <==> spec_parse_container(value@) is Ok,
            r matches Ok(b) ==> spec_parse_container(value@) == Ok::<SpecFileIndex, FileReadError>(
                b@,
            ),
            r matches Err(e) ==> spec_parse_container(value@) == Err::<
                SpecFileIndex,
                FileReadError,
            >(e),
    {
        if value.len() < 4 {
            return Err(FileReadError::InvalidLength(value.len(), 4));
        }
        if be_u32_at(value, 0) != BlorbChunkType::FORM.value() {
            return Err(FileReadError::UnexpectedStartingIdentifier(BlorbChunkType::FORM));
        }
        if value.len() < 8 {
            return Err(FileReadError::InvalidLength(value.len(), 8));
        }
        let declared = be_u32_at(value, 4);
        if declared as usize != value.len() - 8 {
            return Err(FileReadError::InvalidLength(value.len() - 8, declared as usize));
        }
        if value.len() < 12 {
            return Err(FileReadError::InvalidLength(value.len(), 12));
        }
        if be_u32_at(value, 8) != BlorbChunkType::IFRS.value() {
            return Err(FileReadError::UnexpectedStartingIdentifier(BlorbChunkType::IFRS));
        }
        let rest = &value[12..value.len()];
        match FileIndex::build_index(rest) {
            Ok(file_index) => Ok(BlorbReader { file_index }),
            Err(e) => Err(e),
        }
    }

    /// Reads a container from `bytes`.
    pub fn new(bytes: &'a [u8]) -> (r: Result<BlorbReader<'a>, FileReadError>)
        ensures
            r is Ok <==> spec_parse_container(bytes@) is Ok,
            r matches Ok(b) ==> spec_parse_container(bytes@) == Ok::<SpecFileIndex, FileReadError>(
                b@,
            ),
            r matches Err(e) ==> spec_parse_container(bytes@) == Err::<
                SpecFileIndex,
                FileReadError,
            >(e),
    {
        BlorbReader::try_from(bytes)
    }

    /// Looks the resource `id` up in the bucket of `chunk_type` and
    /// hands back its payload; `None` when `chunk_type` is not a
    /// resource category or the id is absent from it.
    pub fn get(&self, chunk_type: BlorbChunkType, id: i32) -> (r: Option<&ChunkData<'a>>)
        ensures
            match self@.bucket(chunk_type) {
                Some(m) => (r is Some <==> m.contains_key(id)) && (r matches Some(d) ==>
                    m.contains_key(id) && d@ == m[id].data),
                None => r is None,
            },
    {
        proof {
            use_type_invariant(&self.file_index);
        }
        let entries = match chunk_type {
            BlorbChunkType::PICTURE => &self.file_index.pictures,
            BlorbChunkType::SOUND => &self.file_index.sounds,
            BlorbChunkType::DATA => &self.file_index.datas,
            BlorbChunkType::EXECUTABLE => &self.file_index.execs,
            _ => {
                return None;
            },
        };
        match bucket_get(entries, id) {
            Some(c) => Some(&c.data),
            None => None,
        }
    }

    /// Looks the executable resource `id` up and decodes it as a Glulx
    /// image; `None` when the id is absent, the stored chunk is not an
    /// executable payload, or the payload does not decode.
    pub fn get_exec(&self, id: i32) -> (r: Option<UlxReader<'a>>)
        ensures
            r is Some <==> (self@.execs.contains_key(id) && self@.execs[id].data is Executable
                && spec_parse_glulx_header(self@.execs[id].data->Executable_0) is Ok),
            r matches Some(u) ==> u.parsed_from(self@.execs[id].data->Executable_0),
    {
        proof {
            use_type_invariant(&self.file_index);
        }
        let c = match bucket_get(&self.file_index.execs, id) {
            Some(c) => c,
            None => {
                return None;
            },
        };
        match &c.data {
            ChunkData::Executable(data) => match UlxReader::try_from(*data) {
                Ok(u) => Some(u),
                Err(_) => None,
            },
            _ => None,
        }
    }

    /// Looks the picture resource `id` up; a chunk that turned out to
    /// hold an executable payload under the picture category is
    /// filtered out defensively.
    pub fn get_image(&self, id: i32) -> (r: Option<&ChunkData<'a>>)
        ensures
            r is Some <==> (self@.pictures.contains_key(id) && !(self@.pictures[id].data
                is Executable)),
            r matches Some(d) ==> self@.pictures.contains_key(id) && d@ == self@.pictures[id].data,
    {
        let c = self.get(BlorbChunkType::PICTURE, id);
        match c {
            Some(ChunkData::Executable(_)) => None,
            _ => c,
        }
    }
}

} // verus!

