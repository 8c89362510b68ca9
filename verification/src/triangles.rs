//! The global triangle index buffer.

use crate::bytes::{le_u32_at, read_words, words_present};
use crate::error::FormatError;
use crate::header::Header;
use vstd::prelude::*;

verus! {

/// Bytes that one triangle record takes in the file: three 32-bit vertex
/// indices.
pub const TRIANGLE_SIZE: u64 = 12;

/// The vertex indices of all triangles in file order, three per triangle,
/// as they stand in `data` from the header's triangle offset on.
pub open spec fn triangle_indices(data: Seq<u8>, header: Header) -> Seq<u32> {
    Seq::new(
        (3 * header.triangle_count) as nat,
        |k: int| le_u32_at(data, header.triangle_offset + 4 * k),
    )
}

/// What reading the triangle records yields: all the indices if the buffer
/// holds every record, a truncation otherwise. The indices are not compared
/// with the vertex count here.
pub open spec fn triangles_of(data: Seq<u8>, header: Header) -> Result<Seq<u32>, FormatError> {
    if words_present(data, header.triangle_offset as int, 3 * header.triangle_count) {
        Ok(triangle_indices(data, header))
    } else {
        Err(FormatError::TruncatedInput)
    }
}

/// Reads the triangle records that `header` declares.
pub fn read_triangles(data: &[u8], header: &Header) -> (r: Result<Vec<u32>, FormatError>)
    ensures
        match r {
            Ok(indices) => triangles_of(data@, *header) == Ok::<Seq<u32>, FormatError>(indices@),
            Err(e) => triangles_of(data@, *header) == Err::<Seq<u32>, FormatError>(e),
        },
{
    let mut indices: Vec<u32> = Vec::new();
    let count: u64 = 3 * (header.triangle_count as u64);
    read_words(data, header.triangle_offset as u64, count, &mut indices)?;
    assert(indices@ =~= triangle_indices(data@, *header));
    Ok(indices)
}

} // verus!
