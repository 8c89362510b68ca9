//! The decoder's entry point.

use crate::arrays::{read_vertex_arrays, vertex_arrays_of};
use crate::error::FormatError;
use crate::header::{header_of, parse_header};
pub use crate::submesh::Mesh;
use crate::submesh::{assemble_submeshes, mesh_seqs, submeshes_of, MeshSeqs};
use crate::triangles::{read_triangles, triangles_of};
use vstd::prelude::*;

verus! {

/// What decoding `data` yields. The four stages run in a fixed order, the
/// header first, then the vertex arrays, the triangles and the submeshes,
/// and the first error ends the decoding.
pub open spec fn decoded(data: Seq<u8>) -> Result<Seq<MeshSeqs>, FormatError> {
    match header_of(data) {
        Err(e) => Err(e),
        Ok(header) => match vertex_arrays_of(data, header) {
            Err(e) => Err(e),
            Ok(attributes) => match triangles_of(data, header) {
                Err(e) => Err(e),
                Ok(triangles) => submeshes_of(data, header, attributes, triangles),
            },
        },
    }
}

/// The outcome of a decoding, with the contents of the meshes in place of
/// the meshes.
pub open spec fn outcome(r: Result<Vec<Mesh>, FormatError>) -> Result<Seq<MeshSeqs>, FormatError> {
    match r {
        Ok(meshes) => Ok(mesh_seqs(meshes@)),
        Err(e) => Err(e),
    }
}

/// Decodes a complete model file held in memory into one mesh per submesh,
/// in file order.
pub fn load_iqm(data: &[u8]) -> (r: Result<Vec<Mesh>, FormatError>)
    ensures
        outcome(r) == decoded(data@),
{
    let header = parse_header(data)?;
    let buffers = read_vertex_arrays(data, &header)?;
    let triangles = read_triangles(data, &header)?;
    assemble_submeshes(data, &header, &buffers, &triangles)
}

} // verus!
