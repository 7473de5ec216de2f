//! The closed registry of recognized four-byte chunk tags.
//!
//! Each recognized tag is the four ASCII bytes of its name read as a
//! big-endian 32-bit integer. The mapping from integer to kind is total
//! only over this closed set: any other value is an error, never a
//! silently accepted unknown kind.

use vstd::prelude::*;

use crate::FileReadError;

verus! {

/// A recognized chunk kind.
#[allow(non_camel_case_types)]
#[derive(PartialEq, Eq, Hash, Copy, Clone, Debug, Structural)]
pub enum BlorbChunkType {
    /// `FORM`: the outer container envelope.
    FORM,
    /// `IFRS`: the container sub-form tag.
    IFRS,
    /// `RIdx`: the resource-index chunk.
    RESOURCE_INDEX,
    /// `Pict`: the picture resource category.
    PICTURE,
    /// `Snd `: the sound resource category.
    SOUND,
    /// `Exec`: the executable resource category.
    EXECUTABLE,
    /// `Data`: the generic-data resource category.
    DATA,
    /// `PNG `: a PNG-encoded picture chunk.
    PICTURE_PNG,
    /// `JPEG`: a JPEG-encoded picture chunk.
    PICTURE_JPEG,
    /// `MOD `: a module-format sound chunk.
    SOUND_MOD,
    /// `SONG`: a song-format sound chunk.
    SOUND_SONG,
    /// `ZCOD`: a Z-code executable chunk.
    EXEC_ZCOD,
    /// `GLUL`: a Glulx executable chunk.
    EXEC_GLUL,
    /// `TEXT`: a text chunk.
    TEXT,
    /// `Plte`: a color palette chunk.
    COLOR_PALETTE,
    /// `Reso`: a resolution chunk.
    RESOLUTION,
    /// `Loop`: a sound-looping chunk.
    LOOP,
    /// `RelN`: a release-number chunk.
    RELEASE_NUMBER,
    /// `IFhd`: a game-identifier header chunk.
    IF_HEADER,
    /// `AUTH`: an author chunk.
    AUTHOR,
    /// `(c)_`: a copyright chunk.
    COPYRIGHT,
    /// `ANNO`: an annotation chunk.
    ANNOTATION,
    /// `INFO`: the debugging-information signature.
    INFO,
}

/// The numeric value of a chunk kind: its four ASCII tag bytes read as a
/// big-endian 32-bit integer.
pub open spec fn spec_tag_value(kind: BlorbChunkType) -> u32 {
    match kind {
        BlorbChunkType::FORM => 0x464f524d,
        BlorbChunkType::IFRS => 0x49465253,
        BlorbChunkType::RESOURCE_INDEX => 0x52496478,
        BlorbChunkType::PICTURE => 0x50696374,
        BlorbChunkType::SOUND => 0x536e6420,
        BlorbChunkType::EXECUTABLE => 0x45786563,
        BlorbChunkType::DATA => 0x44617461,
        BlorbChunkType::PICTURE_PNG => 0x504E4720,
        BlorbChunkType::PICTURE_JPEG => 0x4a504547,
        BlorbChunkType::SOUND_MOD => 0x4d4f4420,
        BlorbChunkType::SOUND_SONG => 0x534f4e47,
        BlorbChunkType::EXEC_ZCOD => 0x5a434f44,
        BlorbChunkType::EXEC_GLUL => 0x474c554c,
        BlorbChunkType::TEXT => 0x54455854,
        BlorbChunkType::COLOR_PALETTE => 0x506c7465,
        BlorbChunkType::RESOLUTION => 0x5265736f,
        BlorbChunkType::LOOP => 0x4c6f6f70,
        BlorbChunkType::RELEASE_NUMBER => 0x52656c4e,
        BlorbChunkType::IF_HEADER => 0x49466864,
        BlorbChunkType::AUTHOR => 0x41555448,
        BlorbChunkType::COPYRIGHT => 0x2863295f,
        BlorbChunkType::ANNOTATION => 0x414e4e4f,
        BlorbChunkType::INFO => 0x494e464f,
    }
}

/// The kind a numeric tag value maps to, if it belongs to the closed set.
pub open spec fn spec_kind_of_tag(value: u32) -> Option<BlorbChunkType> {
    if value == 0x464f524d {
        Some(BlorbChunkType::FORM)
    } else if value == 0x49465253 {
        Some(BlorbChunkType::IFRS)
    } else if value == 0x52496478 {
        Some(BlorbChunkType::RESOURCE_INDEX)
    } else if value == 0x50696374 {
        Some(BlorbChunkType::PICTURE)
    } else if value == 0x536e6420 {
        Some(BlorbChunkType::SOUND)
    } else if value == 0x45786563 {
        Some(BlorbChunkType::EXECUTABLE)
    } else if value == 0x44617461 {
        Some(BlorbChunkType::DATA)
    } else if value == 0x504E4720 {
        Some(BlorbChunkType::PICTURE_PNG)
    } else if value == 0x4a504547 {
        Some(BlorbChunkType::PICTURE_JPEG)
    } else if value == 0x4d4f4420 {
        Some(BlorbChunkType::SOUND_MOD)
    } else if value == 0x534f4e47 {
        Some(BlorbChunkType::SOUND_SONG)
    } else if value == 0x5a434f44 {
        Some(BlorbChunkType::EXEC_ZCOD)
    } else if value == 0x474c554c {
        Some(BlorbChunkType::EXEC_GLUL)
    } else if value == 0x54455854 {
        Some(BlorbChunkType::TEXT)
    } else if value == 0x506c7465 {
        Some(BlorbChunkType::COLOR_PALETTE)
    } else if value == 0x5265736f {
        Some(BlorbChunkType::RESOLUTION)
    } else if value == 0x4c6f6f70 {
        Some(BlorbChunkType::LOOP)
    } else if value == 0x52656c4e {
        Some(BlorbChunkType::RELEASE_NUMBER)
    } else if value == 0x49466864 {
        Some(BlorbChunkType::IF_HEADER)
    } else if value == 0x41555448 {
        Some(BlorbChunkType::AUTHOR)
    } else if value == 0x2863295f {
        Some(BlorbChunkType::COPYRIGHT)
    } else if value == 0x414e4e4f {
        Some(BlorbChunkType::ANNOTATION)
    } else if value == 0x494e464f {
        Some(BlorbChunkType::INFO)
    } else {
        None
    }
}

impl BlorbChunkType {
    /// The four ASCII tag bytes of this kind, read as a big-endian
    /// 32-bit integer.
    pub fn value(self) -> (r: u32)
        ensures
            r == spec_tag_value(self),
    {
        match self {
            BlorbChunkType::FORM => 0x464f524d,
            BlorbChunkType::IFRS => 0x49465253,
            BlorbChunkType::RESOURCE_INDEX => 0x52496478,
            BlorbChunkType::PICTURE => 0x50696374,
            BlorbChunkType::SOUND => 0x536e6420,
            BlorbChunkType::EXECUTABLE => 0x45786563,
            BlorbChunkType::DATA => 0x44617461,
            BlorbChunkType::PICTURE_PNG => 0x504E4720,
            BlorbChunkType::PICTURE_JPEG => 0x4a504547,
            BlorbChunkType::SOUND_MOD => 0x4d4f4420,
            BlorbChunkType::SOUND_SONG => 0x534f4e47,
            BlorbChunkType::EXEC_ZCOD => 0x5a434f44,
            BlorbChunkType::EXEC_GLUL => 0x474c554c,
            BlorbChunkType::TEXT => 0x54455854,
            BlorbChunkType::COLOR_PALETTE => 0x506c7465,
            BlorbChunkType::RESOLUTION => 0x5265736f,
            BlorbChunkType::LOOP => 0x4c6f6f70,
            BlorbChunkType::RELEASE_NUMBER => 0x52656c4e,
            BlorbChunkType::IF_HEADER => 0x49466864,
            BlorbChunkType::AUTHOR => 0x41555448,
            BlorbChunkType::COPYRIGHT => 0x2863295f,
            BlorbChunkType::ANNOTATION => 0x414e4e4f,
            BlorbChunkType::INFO => 0x494e464f,
        }
    }

    /// The kind whose tag value is `value`, or `UnknownIdentifier` when
    /// `value` lies outside the closed recognized set.
    pub fn try_from(value: u32) -> (r: Result<BlorbChunkType, FileReadError>)
        ensures
            r == match spec_kind_of_tag(value) {
                Some(kind) => Ok::<BlorbChunkType, FileReadError>(kind),
                None => Err::<BlorbChunkType, FileReadError>(
                    FileReadError::UnknownIdentifier(value as usize),
                ),
            },
    {
        if value == 0x464f524d {
            Ok(BlorbChunkType::FORM)
        } else if value == 0x49465253 {
            Ok(BlorbChunkType::IFRS)
        } else if value == 0x52496478 {
            Ok(BlorbChunkType::RESOURCE_INDEX)
        } else if value == 0x50696374 {
            Ok(BlorbChunkType::PICTURE)
        } else if value == 0x536e6420 {
            Ok(BlorbChunkType::SOUND)
        } else if value == 0x45786563 {
            Ok(BlorbChunkType::EXECUTABLE)
        } else if value == 0x44617461 {
            Ok(BlorbChunkType::DATA)
        } else if value == 0x504E4720 {
            Ok(BlorbChunkType::PICTURE_PNG)
        } else if value == 0x4a504547 {
            Ok(BlorbChunkType::PICTURE_JPEG)
        } else if value == 0x4d4f4420 {
            Ok(BlorbChunkType::SOUND_MOD)
        } else if value == 0x534f4e47 {
            Ok(BlorbChunkType::SOUND_SONG)
        } else if value == 0x5a434f44 {
            Ok(BlorbChunkType::EXEC_ZCOD)
        } else if value == 0x474c554c {
            Ok(BlorbChunkType::EXEC_GLUL)
        } else if value == 0x54455854 {
            Ok(BlorbChunkType::TEXT)
        } else if value == 0x506c7465 {
            Ok(BlorbChunkType::COLOR_PALETTE)
        } else if value == 0x5265736f {
            Ok(BlorbChunkType::RESOLUTION)
        } else if value == 0x4c6f6f70 {
            Ok(BlorbChunkType::LOOP)
        } else if value == 0x52656c4e {
            Ok(BlorbChunkType::RELEASE_NUMBER)
        } else if value == 0x49466864 {
            Ok(BlorbChunkType::IF_HEADER)
        } else if value == 0x41555448 {
            Ok(BlorbChunkType::AUTHOR)
        } else if value == 0x2863295f {
            Ok(BlorbChunkType::COPYRIGHT)
        } else if value == 0x414e4e4f {
            Ok(BlorbChunkType::ANNOTATION)
        } else if value == 0x494e464f {
            Ok(BlorbChunkType::INFO)
        } else {
            Err(FileReadError::UnknownIdentifier(value as usize))
        }
    }
}

} // verus!
