//! The fixed-size file header.

use crate::bytes::{in_bounds, le_u32_at, ByteCursor};
use crate::error::FormatError;
use vstd::prelude::*;

verus! {

/// The signature that opens every model file: the ASCII text
/// `INTERQUAKEMODEL` and a terminating zero byte.
pub const MAGIC: [u8; 16] = [73, 78, 84, 69, 82, 81, 85, 65, 75, 69, 77, 79, 68, 69, 76, 0];

/// The one format version that the decoder reads.
pub const VERSION: u32 = 2;

/// Bytes of the header that the decoder consumes.
pub const HEADER_SIZE: u64 = 64;

/// The counts and absolute byte offsets that the header declares.
#[derive(Clone, Copy, Debug, PartialEq, Eq, Structural)]
pub struct Header {
    pub version: u32,
    pub submesh_count: u32,
    pub submesh_offset: u32,
    pub vertex_array_count: u32,
    pub vertex_count: u32,
    pub vertex_array_offset: u32,
    pub triangle_count: u32,
    pub triangle_offset: u32,
}

/// Whether `data` opens with the signature.
pub open spec fn has_signature(data: Seq<u8>) -> bool {
    data.len() >= 16 && data.subrange(0, 16) == MAGIC@
}

/// The header fields as they stand at their fixed places in `data`: the
/// version at byte 16, then, after sixteen bytes that the decoder passes
/// over, seven fields from byte 36 on.
pub open spec fn header_fields(data: Seq<u8>) -> Header {
    Header {
        version: le_u32_at(data, 16),
        submesh_count: le_u32_at(data, 36),
        submesh_offset: le_u32_at(data, 40),
        vertex_array_count: le_u32_at(data, 44),
        vertex_count: le_u32_at(data, 48),
        vertex_array_offset: le_u32_at(data, 52),
        triangle_count: le_u32_at(data, 56),
        triangle_offset: le_u32_at(data, 60),
    }
}

/// What parsing the header of `data` yields. The checks come in the order in
/// which the fields lie in the file, and the first one that fails decides.
pub open spec fn header_of(data: Seq<u8>) -> Result<Header, FormatError> {
    if data.len() < 16 {
        Err(FormatError::TruncatedInput)
    } else if !has_signature(data) {
        Err(FormatError::BadMagic)
    } else if data.len() < 20 {
        Err(FormatError::TruncatedInput)
    } else if le_u32_at(data, 16) != VERSION {
        Err(FormatError::UnsupportedVersion)
    } else if data.len() < HEADER_SIZE {
        Err(FormatError::TruncatedInput)
    } else {
        Ok(header_fields(data))
    }
}

/// Reads sixteen bytes and compares them with the signature.
fn check_signature(cursor: &mut ByteCursor) -> (r: Result<(), FormatError>)
    requires
        old(cursor).offset() == 0,
    ensures
        final(cursor).bytes() == old(cursor).bytes(),
        match r {
            Ok(_) => has_signature(old(cursor).bytes()) && final(cursor).offset() == 16,
            Err(e) => if old(cursor).bytes().len() < 16 {
                e == FormatError::TruncatedInput
            } else {
                e == FormatError::BadMagic && !has_signature(old(cursor).bytes())
            },
        },
{
    let mut matches = true;
    let mut i: usize = 0;
    while i < 16
        invariant
            i <= 16,
            cursor.bytes() == old(cursor).bytes(),
            cursor.offset() == i,
            cursor.bytes().len() >= i,
            matches <==> forall|k: int| 0 <= k < i ==> cursor.bytes()[k] == MAGIC@[k],
        decreases 16 - i,
    {
        match cursor.read_u8() {
            Ok(b) => {
                if b != MAGIC[i] {
                    matches = false;
                }
            },
            Err(e) => {
                return Err(e);
            },
        }
        i += 1;
    }
    if matches {
        assert(cursor.bytes().subrange(0, 16) =~= MAGIC@);
        Ok(())
    } else {
        Err(FormatError::BadMagic)
    }
}

/// Parses the header at the start of `data`.
pub fn parse_header(data: &[u8]) -> (r: Result<Header, FormatError>)
    ensures
        r == header_of(data@),
{
    let mut cursor = ByteCursor::new(data);
    check_signature(&mut cursor)?;
    let version = cursor.read_u32()?;
    if version != VERSION {
        return Err(FormatError::UnsupportedVersion);
    }
    cursor.skip(16);
    let submesh_count = cursor.read_u32()?;
    let submesh_offset = cursor.read_u32()?;
    let vertex_array_count = cursor.read_u32()?;
    let vertex_count = cursor.read_u32()?;
    let vertex_array_offset = cursor.read_u32()?;
    let triangle_count = cursor.read_u32()?;
    let triangle_offset = cursor.read_u32()?;
    Ok(
        Header {
            version,
            submesh_count,
            submesh_offset,
            vertex_array_count,
            vertex_count,
            vertex_array_offset,
            triangle_count,
            triangle_offset,
        },
    )
}

} // verus!
