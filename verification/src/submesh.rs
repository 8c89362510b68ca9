//! Submesh descriptors and the assembly of one self-contained mesh per
//! submesh.

use crate::arrays::{scalar_place, AttributeBuffers, AttributeSeqs};
use crate::bytes::{in_bounds, le_u32_at, ByteCursor};
use crate::error::{Channel, FormatError};
use crate::header::Header;
use vstd::prelude::*;

verus! {

/// Bytes that one submesh descriptor takes in the file.
pub const SUBMESH_SIZE: u64 = 24;

/// One submesh declaration: a window of vertices and a window of triangles
/// in the file's global numbering. The name and material references are
/// carried along and not resolved.
#[derive(Clone, Copy, Debug, PartialEq, Eq, Structural)]
pub struct SubmeshDescriptor {
    pub name: u32,
    pub material: u32,
    pub first_vertex: u32,
    pub vertex_count: u32,
    pub first_triangle: u32,
    pub triangle_count: u32,
}

/// One vertex with all seven attributes. The scalars of the four numeric
/// channels are IEEE-754 bit patterns. An attribute for which the file holds
/// no data is zero.
#[derive(Clone, Copy, Debug, PartialEq, Eq)]
pub struct Vertex {
    pub position: [u32; 3],
    pub tex_coord: [u32; 2],
    pub normal: [u32; 3],
    pub tangent: [u32; 4],
    pub blend_indices: [u8; 4],
    pub blend_weights: [u8; 4],
    pub color: [u8; 4],
}

/// The geometry of one submesh: its vertices, and triangle indices that
/// count from the first of them.
#[derive(Debug, PartialEq, Eq)]
pub struct Mesh {
    pub vertex_buffer: Vec<Vertex>,
    pub index_buffer: Vec<u32>,
}

/// The contents of a [`Mesh`].
pub ghost struct MeshSeqs {
    pub vertices: Seq<Vertex>,
    pub indices: Seq<u32>,
}

impl View for Mesh {
    type V = MeshSeqs;

    open spec fn view(&self) -> MeshSeqs {
        MeshSeqs { vertices: self.vertex_buffer@, indices: self.index_buffer@ }
    }
}

/// The contents of a list of meshes.
pub open spec fn mesh_seqs(meshes: Seq<Mesh>) -> Seq<MeshSeqs> {
    Seq::new(meshes.len(), |i: int| meshes[i]@)
}

/// Entry `i` of a buffer of 32-bit scalars, or zero where the buffer has no
/// such entry.
pub open spec fn word_of(buffer: Seq<u32>, i: int) -> u32 {
    if 0 <= i < buffer.len() {
        buffer[i]
    } else {
        0
    }
}

/// Entry `i` of a buffer of bytes, or zero where the buffer has no such
/// entry.
pub open spec fn byte_of(buffer: Seq<u8>, i: int) -> u8 {
    if 0 <= i < buffer.len() {
        buffer[i]
    } else {
        0
    }
}

/// The vertex with global number `v`, gathered from the attribute buffers.
pub open spec fn vertex_of(attributes: AttributeSeqs, v: int) -> Vertex {
    Vertex {
        position: [
            word_of(attributes.positions, 3 * v),
            word_of(attributes.positions, 3 * v + 1),
            word_of(attributes.positions, 3 * v + 2),
        ],
        tex_coord: [
            word_of(attributes.tex_coords, 2 * v),
            word_of(attributes.tex_coords, 2 * v + 1),
        ],
        normal: [
            word_of(attributes.normals, 3 * v),
            word_of(attributes.normals, 3 * v + 1),
            word_of(attributes.normals, 3 * v + 2),
        ],
        tangent: [
            word_of(attributes.tangents, 4 * v),
            word_of(attributes.tangents, 4 * v + 1),
            word_of(attributes.tangents, 4 * v + 2),
            word_of(attributes.tangents, 4 * v + 3),
        ],
        blend_indices: [
            byte_of(attributes.blend_indices, 4 * v),
            byte_of(attributes.blend_indices, 4 * v + 1),
            byte_of(attributes.blend_indices, 4 * v + 2),
            byte_of(attributes.blend_indices, 4 * v + 3),
        ],
        blend_weights: [
            byte_of(attributes.blend_weights, 4 * v),
            byte_of(attributes.blend_weights, 4 * v + 1),
            byte_of(attributes.blend_weights, 4 * v + 2),
            byte_of(attributes.blend_weights, 4 * v + 3),
        ],
        color: [
            byte_of(attributes.colors, 4 * v),
            byte_of(attributes.colors, 4 * v + 1),
            byte_of(attributes.colors, 4 * v + 2),
            byte_of(attributes.colors, 4 * v + 3),
        ],
    }
}

impl Vertex {
    /// The vertex's scalars in one of the four channels of 32-bit scalars;
    /// empty for the other channels.
    pub open spec fn words(self, channel: Channel) -> Seq<u32> {
        match channel {
            Channel::Position => self.position@,
            Channel::TexCoord => self.tex_coord@,
            Channel::Normal => self.normal@,
            Channel::Tangent => self.tangent@,
            _ => Seq::empty(),
        }
    }

    /// The vertex's scalars in one of the three channels of bytes; empty for
    /// the other channels.
    pub open spec fn bytes(self, channel: Channel) -> Seq<u8> {
        match channel {
            Channel::BlendIndex => self.blend_indices@,
            Channel::BlendWeight => self.blend_weights@,
            Channel::Color => self.color@,
            _ => Seq::empty(),
        }
    }
}

/// Each scalar of a gathered vertex is the entry at its place in the
/// channel's buffer, or zero where the buffer has no such entry.
pub proof fn lemma_vertex_scalars(attributes: AttributeSeqs, v: int, channel: Channel, c: int)
    requires
        0 <= c < channel.arity(),
    ensures
        channel.is_wide() ==> vertex_of(attributes, v).words(channel).len() == channel.arity()
            && vertex_of(attributes, v).words(channel)[c] == word_of(
            attributes.words(channel),
            scalar_place(channel, v, c),
        ),
        !channel.is_wide() ==> vertex_of(attributes, v).bytes(channel).len() == channel.arity()
            && vertex_of(attributes, v).bytes(channel)[c] == byte_of(
            attributes.bytes(channel),
            scalar_place(channel, v, c),
        ),
{
}

impl SubmeshDescriptor {
    /// Whether the global vertex number `g` lies in the submesh's vertex
    /// window.
    pub open spec fn owns(self, g: int) -> bool {
        self.first_vertex <= g < self.first_vertex + self.vertex_count
    }

    /// Place in the global index buffer of the submesh's index number `k`.
    pub open spec fn index_place(self, k: int) -> int {
        3 * self.first_triangle + k
    }

    /// Whether the submesh's index number `k` exists in the global index
    /// buffer and refers to a vertex of the submesh's own window.
    pub open spec fn index_ok(self, triangles: Seq<u32>, k: int) -> bool {
        self.index_place(k) < triangles.len() && self.owns(
            triangles[self.index_place(k)] as int,
        )
    }

    /// Whether every index of the submesh's triangle window is in order.
    pub open spec fn indices_ok(self, triangles: Seq<u32>) -> bool {
        forall|k: int| 0 <= k < 3 * self.triangle_count ==> #[trigger] self.index_ok(triangles, k)
    }

    /// The vertices of the submesh's window, in order.
    pub open spec fn vertices(self, attributes: AttributeSeqs) -> Seq<Vertex> {
        Seq::new(self.vertex_count as nat, |j: int| vertex_of(attributes, self.first_vertex + j))
    }

    /// The indices of the submesh's triangle window, each counted from the
    /// submesh's first vertex.
    pub open spec fn indices(self, triangles: Seq<u32>) -> Seq<u32> {
        Seq::new(
            (3 * self.triangle_count) as nat,
            |k: int| (triangles[self.index_place(k)] - self.first_vertex) as u32,
        )
    }

    /// The mesh that the submesh assembles to, or the error that an index
    /// outside its vertex window raises.
    pub open spec fn mesh(self, attributes: AttributeSeqs, triangles: Seq<u32>) -> Result<
        MeshSeqs,
        FormatError,
    > {
        if self.indices_ok(triangles) {
            Ok(
                MeshSeqs {
                    vertices: self.vertices(attributes),
                    indices: self.indices(triangles),
                },
            )
        } else {
            Err(FormatError::IndexOutOfRange)
        }
    }
}

/// Byte position of submesh descriptor number `i`.
pub open spec fn submesh_place(header: Header, i: int) -> int {
    header.submesh_offset + SUBMESH_SIZE * i
}

/// Whether submesh descriptor number `i` lies inside `data` as a whole.
pub open spec fn submesh_present(data: Seq<u8>, header: Header, i: int) -> bool {
    in_bounds(data, submesh_place(header, i), SUBMESH_SIZE as int)
}

/// Submesh descriptor number `i` as it stands in `data`.
pub open spec fn submesh_at(data: Seq<u8>, header: Header, i: int) -> SubmeshDescriptor {
    let at = submesh_place(header, i);
    SubmeshDescriptor {
        name: le_u32_at(data, at),
        material: le_u32_at(data, at + 4),
        first_vertex: le_u32_at(data, at + 8),
        vertex_count: le_u32_at(data, at + 12),
        first_triangle: le_u32_at(data, at + 16),
        triangle_count: le_u32_at(data, at + 20),
    }
}

/// The error, if any, that submesh number `i` raises by itself: a
/// truncation if its descriptor does not fit into the buffer, and otherwise
/// whatever its assembly raises.
pub open spec fn submesh_error(data: Seq<u8>, header: Header, triangles: Seq<u32>, i: int) -> Option<
    FormatError,
> {
    if !submesh_present(data, header, i) {
        Some(FormatError::TruncatedInput)
    } else if !submesh_at(data, header, i).indices_ok(triangles) {
        Some(FormatError::IndexOutOfRange)
    } else {
        None
    }
}

/// The first error among submeshes `0 .. n`, in file order.
pub open spec fn submeshes_error(
    data: Seq<u8>,
    header: Header,
    triangles: Seq<u32>,
    n: int,
) -> Option<FormatError>
    decreases n,
{
    if n <= 0 {
        None
    } else {
        match submeshes_error(data, header, triangles, n - 1) {
            Some(e) => Some(e),
            None => submesh_error(data, header, triangles, n - 1),
        }
    }
}

/// The mesh of submesh number `i`, for a submesh that raises no error.
pub open spec fn mesh_at(
    data: Seq<u8>,
    header: Header,
    attributes: AttributeSeqs,
    triangles: Seq<u32>,
    i: int,
) -> MeshSeqs {
    let d = submesh_at(data, header, i);
    MeshSeqs { vertices: d.vertices(attributes), indices: d.indices(triangles) }
}

/// What assembling all the submeshes that `header` declares yields: the
/// first error in file order, or else one mesh per submesh, in file order.
pub open spec fn submeshes_of(
    data: Seq<u8>,
    header: Header,
    attributes: AttributeSeqs,
    triangles: Seq<u32>,
) -> Result<Seq<MeshSeqs>, FormatError> {
    match submeshes_error(data, header, triangles, header.submesh_count as int) {
        Some(e) => Err(e),
        None => Ok(
            Seq::new(
                header.submesh_count as nat,
                |i: int| mesh_at(data, header, attributes, triangles, i),
            ),
        ),
    }
}

/// Once a submesh has raised an error, later submeshes do not change it.
pub proof fn lemma_submeshes_error_stays(
    data: Seq<u8>,
    header: Header,
    triangles: Seq<u32>,
    i: int,
    n: int,
)
    requires
        0 <= i <= n,
        submeshes_error(data, header, triangles, i) is Some,
    ensures
        submeshes_error(data, header, triangles, n) == submeshes_error(data, header, triangles, i),
    decreases n - i,
{
    if i < n {
        lemma_submeshes_error_stays(data, header, triangles, i, n - 1);
    }
}

/// The submeshes `0 .. n` pass without an error exactly when none of them
/// raises one by itself.
pub proof fn lemma_submeshes_pass_iff_each_does(
    data: Seq<u8>,
    header: Header,
    triangles: Seq<u32>,
    n: int,
)
    ensures
        submeshes_error(data, header, triangles, n) is None <==> forall|i: int|
            0 <= i < n ==> #[trigger] submesh_error(data, header, triangles, i) is None,
    decreases n,
{
    if n > 0 {
        lemma_submeshes_pass_iff_each_does(data, header, triangles, n - 1);
    }
}

/// Entry `stride * v + c` of `buffer`, or zero where there is none.
fn word_or_default(buffer: &Vec<u32>, stride: u64, v: u64, c: u64) -> (w: u32)
    requires
        stride <= 4,
        c < 4,
    ensures
        w == word_of(buffer@, stride * v + c),
{
    assert(stride * v <= 4 * v) by (nonlinear_arith)
        requires
            stride <= 4,
    ;
    let at: u128 = (stride as u128) * (v as u128) + (c as u128);
    if at < buffer.len() as u128 {
        buffer[at as usize]
    } else {
        0
    }
}

/// Entry `4 * v + c` of `buffer`, or zero where there is none.
fn byte_or_default(buffer: &Vec<u8>, v: u64, c: u64) -> (b: u8)
    requires
        c < 4,
    ensures
        b == byte_of(buffer@, 4 * v + c),
{
    let at: u128 = 4 * (v as u128) + (c as u128);
    if at < buffer.len() as u128 {
        buffer[at as usize]
    } else {
        0
    }
}

/// Gathers the attributes of the vertex with global number `v`.
pub fn gather_vertex(buffers: &AttributeBuffers, v: u64) -> (vertex: Vertex)
    ensures
        vertex == vertex_of(buffers@, v as int),
{
    let vertex = Vertex {
        position: [
            word_or_default(&buffers.positions, 3, v, 0),
            word_or_default(&buffers.positions, 3, v, 1),
            word_or_default(&buffers.positions, 3, v, 2),
        ],
        tex_coord: [
            word_or_default(&buffers.tex_coords, 2, v, 0),
            word_or_default(&buffers.tex_coords, 2, v, 1),
        ],
        normal: [
            word_or_default(&buffers.normals, 3, v, 0),
            word_or_default(&buffers.normals, 3, v, 1),
            word_or_default(&buffers.normals, 3, v, 2),
        ],
        tangent: [
            word_or_default(&buffers.tangents, 4, v, 0),
            word_or_default(&buffers.tangents, 4, v, 1),
            word_or_default(&buffers.tangents, 4, v, 2),
            word_or_default(&buffers.tangents, 4, v, 3),
        ],
        blend_indices: [
            byte_or_default(&buffers.blend_indices, v, 0),
            byte_or_default(&buffers.blend_indices, v, 1),
            byte_or_default(&buffers.blend_indices, v, 2),
            byte_or_default(&buffers.blend_indices, v, 3),
        ],
        blend_weights: [
            byte_or_default(&buffers.blend_weights, v, 0),
            byte_or_default(&buffers.blend_weights, v, 1),
            byte_or_default(&buffers.blend_weights, v, 2),
            byte_or_default(&buffers.blend_weights, v, 3),
        ],
        color: [
            byte_or_default(&buffers.colors, v, 0),
            byte_or_default(&buffers.colors, v, 1),
            byte_or_default(&buffers.colors, v, 2),
            byte_or_default(&buffers.colors, v, 3),
        ],
    };
    proof {
        let expected = vertex_of(buffers@, v as int);
        assert(vertex.position =~= expected.position);
        assert(vertex.tex_coord =~= expected.tex_coord);
        assert(vertex.normal =~= expected.normal);
        assert(vertex.tangent =~= expected.tangent);
        assert(vertex.blend_indices =~= expected.blend_indices);
        assert(vertex.blend_weights =~= expected.blend_weights);
        assert(vertex.color =~= expected.color);
    }
    vertex
}

/// Reads submesh descriptor number `i`.
pub fn read_submesh(data: &[u8], header: &Header, i: u32) -> (r: Result<
    SubmeshDescriptor,
    FormatError,
>)
    ensures
        match r {
            Ok(d) => submesh_present(data@, *header, i as int) && d == submesh_at(
                data@,
                *header,
                i as int,
            ),
            Err(e) => e == FormatError::TruncatedInput && !submesh_present(
                data@,
                *header,
                i as int,
            ),
        },
{
    let mut cursor = ByteCursor::new(data);
    cursor.seek(header.submesh_offset as u64 + SUBMESH_SIZE * (i as u64));
    if data.len() as u64 >= SUBMESH_SIZE && cursor.position() <= data.len() as u64
        - SUBMESH_SIZE {
        let name = cursor.read_u32()?;
        let material = cursor.read_u32()?;
        let first_vertex = cursor.read_u32()?;
        let vertex_count = cursor.read_u32()?;
        let first_triangle = cursor.read_u32()?;
        let triangle_count = cursor.read_u32()?;
        Ok(
            SubmeshDescriptor {
                name,
                material,
                first_vertex,
                vertex_count,
                first_triangle,
                triangle_count,
            },
        )
    } else {
        Err(FormatError::TruncatedInput)
    }
}

/// Builds the local index list of a submesh from the global index buffer.
pub fn rebase_indices(submesh: &SubmeshDescriptor, triangles: &Vec<u32>) -> (r: Result<
    Vec<u32>,
    FormatError,
>)
    ensures
        match r {
            Ok(indices) => submesh.indices_ok(triangles@) && indices@ == submesh.indices(
                triangles@,
            ),
            Err(e) => e == FormatError::IndexOutOfRange && !submesh.indices_ok(triangles@),
        },
{
    let mut indices: Vec<u32> = Vec::new();
    let count: u64 = 3 * (submesh.triangle_count as u64);
    let base: u64 = 3 * (submesh.first_triangle as u64);
    let mut k: u64 = 0;
    while k < count
        invariant
            k <= count,
            count == 3 * submesh.triangle_count,
            base == 3 * submesh.first_triangle,
            indices@.len() == k,
            forall|j: int| 0 <= j < k ==> #[trigger] submesh.index_ok(triangles@, j),
            forall|j: int|
                0 <= j < k ==> indices@[j] == (triangles@[submesh.index_place(j)]
                    - submesh.first_vertex) as u32,
        decreases count - k,
    {
        let at: u64 = base + k;
        if at >= triangles.len() as u64 {
            assert(!submesh.index_ok(triangles@, k as int));
            return Err(FormatError::IndexOutOfRange);
        }
        let g: u32 = triangles[at as usize];
        if g < submesh.first_vertex || g - submesh.first_vertex >= submesh.vertex_count {
            assert(!submesh.index_ok(triangles@, k as int));
            return Err(FormatError::IndexOutOfRange);
        }
        indices.push(g - submesh.first_vertex);
        k += 1;
    }
    assert(indices@ =~= submesh.indices(triangles@));
    Ok(indices)
}

/// Gathers the vertices of a submesh's window.
pub fn gather_vertices(submesh: &SubmeshDescriptor, buffers: &AttributeBuffers) -> (vertices: Vec<
    Vertex,
>)
    ensures
        vertices@ == submesh.vertices(buffers@),
{
    let mut vertices: Vec<Vertex> = Vec::new();
    let mut j: u32 = 0;
    while j < submesh.vertex_count
        invariant
            j <= submesh.vertex_count,
            vertices@.len() == j,
            forall|k: int|
                0 <= k < j ==> vertices@[k] == vertex_of(buffers@, submesh.first_vertex + k),
        decreases submesh.vertex_count - j,
    {
        vertices.push(gather_vertex(buffers, submesh.first_vertex as u64 + j as u64));
        j += 1;
    }
    assert(vertices@ =~= submesh.vertices(buffers@));
    vertices
}

/// Assembles the mesh of one submesh.
pub fn assemble_submesh(
    submesh: &SubmeshDescriptor,
    buffers: &AttributeBuffers,
    triangles: &Vec<u32>,
) -> (r: Result<Mesh, FormatError>)
    ensures
        match r {
            Ok(mesh) => submesh.mesh(buffers@, triangles@) == Ok::<MeshSeqs, FormatError>(mesh@),
            Err(e) => submesh.mesh(buffers@, triangles@) == Err::<MeshSeqs, FormatError>(e),
        },
{
    let index_buffer = rebase_indices(submesh, triangles)?;
    let vertex_buffer = gather_vertices(submesh, buffers);
    Ok(Mesh { vertex_buffer, index_buffer })
}

/// Assembles every submesh that `header` declares, in file order.
pub fn assemble_submeshes(
    data: &[u8],
    header: &Header,
    buffers: &AttributeBuffers,
    triangles: &Vec<u32>,
) -> (r: Result<Vec<Mesh>, FormatError>)
    ensures
        match r {
            Ok(meshes) => submeshes_of(data@, *header, buffers@, triangles@) == Ok::<
                Seq<MeshSeqs>,
                FormatError,
            >(mesh_seqs(meshes@)),
            Err(e) => submeshes_of(data@, *header, buffers@, triangles@) == Err::<
                Seq<MeshSeqs>,
                FormatError,
            >(e),
        },
{
    let mut meshes: Vec<Mesh> = Vec::new();
    let mut i: u32 = 0;
    while i < header.submesh_count
        invariant
            i <= header.submesh_count,
            submeshes_error(data@, *header, triangles@, i as int) is None,
            meshes@.len() == i,
            forall|j: int|
                0 <= j < i ==> (#[trigger] meshes@[j])@ == mesh_at(
                    data@,
                    *header,
                    buffers@,
                    triangles@,
                    j,
                ),
        decreases header.submesh_count - i,
    {
        let step = match read_submesh(data, header, i) {
            Ok(submesh) => assemble_submesh(&submesh, buffers, triangles),
            Err(e) => Err(e),
        };
        match step {
            Ok(mesh) => {
                meshes.push(mesh);
            },
            Err(e) => {
                proof {
                    lemma_submeshes_error_stays(
                        data@,
                        *header,
                        triangles@,
                        i + 1,
                        header.submesh_count as int,
                    );
                }
                return Err(e);
            },
        }
        i += 1;
    }
    assert(mesh_seqs(meshes@) =~= Seq::new(
        header.submesh_count as nat,
        |i: int| mesh_at(data@, *header, buffers@, triangles@, i),
    ));
    Ok(meshes)
}

} // verus!
