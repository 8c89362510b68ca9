//! General facts about the decoder, each proved from the definitions that
//! the decoding functions are verified against.

use crate::arrays::{
    descriptor_at, descriptor_error, fed_bytes, fed_words, lemma_arrays_pass_iff_each_does,
    lemma_first_block_leads, lemma_unfed_channel_is_empty, scalar_count, scalar_place,
    vertex_arrays_of,
};
use crate::bytes::{byte_or_zero, in_bounds, word_or_zero, words_present};
use crate::error::{lemma_tag_round_trip, Channel, FormatError};
use crate::header::{has_signature, header_of, Header, MAGIC};
use crate::iqm::{decoded, outcome};
use crate::submesh::{
    lemma_submeshes_error_stays, lemma_submeshes_pass_iff_each_does, lemma_vertex_scalars,
    submesh_at, submesh_error, submesh_present, submeshes_error, Mesh, MeshSeqs,
};
use crate::triangles::{triangle_indices, triangles_of};
use vstd::prelude::*;

verus! {

/// A buffer of fewer than twenty bytes never decodes: it is reported as
/// truncated, unless it holds sixteen bytes or more that are not the
/// signature, which is reported as such.
pub proof fn lemma_short_buffer_is_truncated(data: Seq<u8>)
    requires
        data.len() < 20,
        data.len() < 16 || has_signature(data),
    ensures
        decoded(data) == Err::<Seq<MeshSeqs>, FormatError>(FormatError::TruncatedInput),
{
}

/// A buffer whose first sixteen bytes are not the signature is reported as
/// such, whatever follows them.
pub proof fn lemma_foreign_signature_is_rejected(data: Seq<u8>)
    requires
        data.len() >= 16,
        data.subrange(0, 16) != MAGIC@,
    ensures
        decoded(data) == Err::<Seq<MeshSeqs>, FormatError>(FormatError::BadMagic),
{
}

/// Decoding depends on the bytes alone: two runs over buffers that hold the
/// same bytes end in the same error or in meshes with the same contents.
pub proof fn lemma_equal_bytes_decode_alike(
    a: Seq<u8>,
    b: Seq<u8>,
    decoded_a: Result<Vec<Mesh>, FormatError>,
    decoded_b: Result<Vec<Mesh>, FormatError>,
)
    requires
        a == b,
        outcome(decoded_a) == decoded(a),
        outcome(decoded_b) == decoded(b),
    ensures
        outcome(decoded_a) == outcome(decoded_b),
{
}

/// Decoding succeeds exactly when the header parses, no vertex-array
/// descriptor raises an error, the buffer holds every triangle record, and
/// no submesh raises an error.
pub proof fn lemma_decoding_succeeds_iff(data: Seq<u8>)
    ensures
        decoded(data) is Ok <==> {
            let header = header_of(data)->Ok_0;
            &&& header_of(data) is Ok
            &&& forall|i: int|
                0 <= i < header.vertex_array_count ==> #[trigger] descriptor_error(data, header, i)
                    is None
            &&& words_present(data, header.triangle_offset as int, 3 * header.triangle_count)
            &&& forall|i: int|
                0 <= i < header.submesh_count ==> #[trigger] submesh_error(
                    data,
                    header,
                    triangle_indices(data, header),
                    i,
                ) is None
        },
{
    if header_of(data) is Ok {
        let header = header_of(data)->Ok_0;
        lemma_arrays_pass_iff_each_does(data, header, header.vertex_array_count as int);
        lemma_submeshes_pass_iff_each_does(
            data,
            header,
            triangle_indices(data, header),
            header.submesh_count as int,
        );
    }
}

/// Every mesh stands on its own: it has the vertices and triangles that its
/// submesh declares, each of its indices points into its own vertex list,
/// and adding the submesh's first vertex to an index gives back the global
/// index of the file. Whether the vertex windows of two submeshes overlap
/// plays no part.
pub proof fn lemma_indices_are_local(data: Seq<u8>, meshes: Seq<MeshSeqs>, i: int, k: int)
    requires
        decoded(data) == Ok::<Seq<MeshSeqs>, FormatError>(meshes),
        0 <= i < meshes.len(),
        0 <= k < meshes[i].indices.len(),
    ensures
        ({
            let header = header_of(data)->Ok_0;
            let triangles = triangles_of(data, header)->Ok_0;
            let submesh = submesh_at(data, header, i);
            &&& meshes.len() == header.submesh_count
            &&& meshes[i].vertices.len() == submesh.vertex_count
            &&& meshes[i].indices.len() == 3 * submesh.triangle_count
            &&& meshes[i].indices[k] < meshes[i].vertices.len()
            &&& submesh.index_place(k) < triangles.len()
            &&& meshes[i].indices[k] + submesh.first_vertex == triangles[submesh.index_place(k)]
        }),
{
    let header = header_of(data)->Ok_0;
    let triangles = triangles_of(data, header)->Ok_0;
    let submesh = submesh_at(data, header, i);
    lemma_submeshes_pass_iff_each_does(data, header, triangles, header.submesh_count as int);
    assert(submesh_error(data, header, triangles, i) is None);
    assert(submesh.index_ok(triangles, k));
}

/// An index outside a submesh's vertex window fails the whole decoding with
/// `IndexOutOfRange`, whatever the other submeshes hold. The index one past
/// the window's last vertex is such an index, and so is one that the global
/// index buffer lacks.
pub proof fn lemma_index_outside_window_is_rejected(data: Seq<u8>, i: int, k: int)
    requires
        header_of(data) is Ok,
        vertex_arrays_of(data, header_of(data)->Ok_0) is Ok,
        triangles_of(data, header_of(data)->Ok_0) is Ok,
        0 <= i < header_of(data)->Ok_0.submesh_count,
        submesh_present(data, header_of(data)->Ok_0, i),
        0 <= k < 3 * submesh_at(data, header_of(data)->Ok_0, i).triangle_count,
        !submesh_at(data, header_of(data)->Ok_0, i).index_ok(
            triangles_of(data, header_of(data)->Ok_0)->Ok_0,
            k,
        ),
    ensures
        decoded(data) == Err::<Seq<MeshSeqs>, FormatError>(FormatError::IndexOutOfRange),
{
    let header = header_of(data)->Ok_0;
    let triangles = triangles_of(data, header)->Ok_0;
    lemma_only_index_errors_before(data, header, triangles, i, i);
    assert(submesh_error(data, header, triangles, i) == Some(FormatError::IndexOutOfRange));
    lemma_submeshes_error_stays(data, header, triangles, i + 1, header.submesh_count as int);
}

/// Before a submesh descriptor that the buffer holds, the only error that
/// can arise is an index outside a vertex window.
proof fn lemma_only_index_errors_before(
    data: Seq<u8>,
    header: Header,
    triangles: Seq<u32>,
    i: int,
    n: int,
)
    requires
        0 <= n <= i,
        submesh_present(data, header, i),
    ensures
        submeshes_error(data, header, triangles, n) is None || submeshes_error(
            data,
            header,
            triangles,
            n,
        ) == Some(FormatError::IndexOutOfRange),
    decreases n,
{
    if n > 0 {
        lemma_only_index_errors_before(data, header, triangles, i, n - 1);
        assert(submesh_present(data, header, n - 1));
    }
}

/// A channel that no descriptor feeds is zero in every vertex of every
/// mesh. A file without a descriptor for the channel is the plain case; a
/// descriptor that names the channel with another layout feeds nothing
/// either.
pub proof fn lemma_unfed_channel_reads_zero(
    data: Seq<u8>,
    meshes: Seq<MeshSeqs>,
    channel: Channel,
    i: int,
    j: int,
    c: int,
)
    requires
        decoded(data) == Ok::<Seq<MeshSeqs>, FormatError>(meshes),
        forall|d: int|
            0 <= d < header_of(data)->Ok_0.vertex_array_count ==> !(#[trigger] descriptor_at(
                data,
                header_of(data)->Ok_0,
                d,
            )).feeds(channel),
        0 <= i < meshes.len(),
        0 <= j < meshes[i].vertices.len(),
        0 <= c < channel.arity(),
    ensures
        channel.is_wide() ==> meshes[i].vertices[j].words(channel)[c] == 0,
        !channel.is_wide() ==> meshes[i].vertices[j].bytes(channel)[c] == 0,
{
    let header = header_of(data)->Ok_0;
    let attributes = vertex_arrays_of(data, header)->Ok_0;
    let submesh = submesh_at(data, header, i);
    lemma_unfed_channel_is_empty(data, header, channel, header.vertex_array_count as int);
    lemma_vertex_scalars(attributes, submesh.first_vertex + j, channel, c);
}

/// In a file that no descriptor feeds tangents from, every vertex has the
/// tangent `[0, 0, 0, 0]`.
pub proof fn lemma_absent_tangent_is_zero(data: Seq<u8>, meshes: Seq<MeshSeqs>, i: int, j: int)
    requires
        decoded(data) == Ok::<Seq<MeshSeqs>, FormatError>(meshes),
        forall|d: int|
            0 <= d < header_of(data)->Ok_0.vertex_array_count ==> !(#[trigger] descriptor_at(
                data,
                header_of(data)->Ok_0,
                d,
            )).feeds(Channel::Tangent),
        0 <= i < meshes.len(),
        0 <= j < meshes[i].vertices.len(),
    ensures
        meshes[i].vertices[j].tangent == [0u32, 0u32, 0u32, 0u32],
{
    lemma_unfed_channel_reads_zero(data, meshes, Channel::Tangent, i, j, 0);
    lemma_unfed_channel_reads_zero(data, meshes, Channel::Tangent, i, j, 1);
    lemma_unfed_channel_reads_zero(data, meshes, Channel::Tangent, i, j, 2);
    lemma_unfed_channel_reads_zero(data, meshes, Channel::Tangent, i, j, 3);
    assert(meshes[i].vertices[j].tangent =~= [0u32, 0u32, 0u32, 0u32]);
}

/// The scalars of a decoded vertex are those of the file, one for one and
/// in order. For a channel whose first feeding descriptor is number `first`,
/// component `c` of vertex `j` of mesh `i` is the scalar that stands in the
/// descriptor's data block at the place of that component of the vertex's
/// global number, provided the file declares that many vertices. In an
/// optional channel, a scalar past the end of the buffer reads as zero; of a
/// required channel the buffer holds every scalar.
pub proof fn lemma_vertices_hold_file_scalars(
    data: Seq<u8>,
    meshes: Seq<MeshSeqs>,
    channel: Channel,
    first: int,
    i: int,
    j: int,
    c: int,
)
    requires
        decoded(data) == Ok::<Seq<MeshSeqs>, FormatError>(meshes),
        0 <= first < header_of(data)->Ok_0.vertex_array_count,
        descriptor_at(data, header_of(data)->Ok_0, first).feeds(channel),
        forall|d: int|
            0 <= d < first ==> !(#[trigger] descriptor_at(data, header_of(data)->Ok_0, d)).feeds(
                channel,
            ),
        0 <= i < meshes.len(),
        0 <= j < meshes[i].vertices.len(),
        submesh_at(data, header_of(data)->Ok_0, i).first_vertex + j < header_of(
            data,
        )->Ok_0.vertex_count,
        0 <= c < channel.arity(),
    ensures
        ({
            let header = header_of(data)->Ok_0;
            let block = descriptor_at(data, header, first).offset as int;
            let v = submesh_at(data, header, i).first_vertex + j;
            let place = scalar_place(channel, v, c);
            &&& channel.is_wide() ==> meshes[i].vertices[j].words(channel)[c] == word_or_zero(
                data,
                block,
                place,
            )
            &&& !channel.is_wide() ==> meshes[i].vertices[j].bytes(channel)[c] == byte_or_zero(
                data,
                block,
                place,
            )
            &&& channel.is_required() ==> in_bounds(data, block + 4 * place, 4)
        }),
{
    let header = header_of(data)->Ok_0;
    let attributes = vertex_arrays_of(data, header)->Ok_0;
    let n = header.vertex_array_count as int;
    let v = submesh_at(data, header, i).first_vertex + j;
    let place = scalar_place(channel, v, c);
    lemma_first_block_leads(data, header, channel, first, n);
    lemma_arrays_pass_iff_each_does(data, header, n);
    assert(descriptor_error(data, header, first) is None);
    lemma_vertex_scalars(attributes, v, channel, c);
    lemma_tag_round_trip(channel, descriptor_at(data, header, first).channel_tag);
    assert(0 <= place < scalar_count(header, channel));
    if channel.is_wide() {
        let block = fed_words(data, header, channel, first);
        assert(block.is_prefix_of(attributes.words(channel)));
        assert(block[place] == attributes.words(channel)[place]);
    } else {
        let block = fed_bytes(data, header, channel, first);
        assert(block.is_prefix_of(attributes.bytes(channel)));
        assert(block[place] == attributes.bytes(channel)[place]);
    }
}

} // verus!
