use iqm_viewer::arrays::{
    read_descriptor, read_vertex_array, read_vertex_arrays, AttributeBuffers,
    VertexArrayDescriptor, DESCRIPTOR_SIZE,
};
use iqm_viewer::error::{Channel, FormatError, Layout};
use iqm_viewer::header::parse_header;
use iqm_viewer::iqm::load_iqm;
use iqm_viewer::submesh::{
    assemble_submesh, assemble_submeshes, gather_vertex, gather_vertices, read_submesh,
    rebase_indices, Mesh, SubmeshDescriptor, Vertex, SUBMESH_SIZE,
};
use iqm_viewer::triangles::{read_triangles, TRIANGLE_SIZE};

const POSITION: u32 = 0;
const TEX_COORD: u32 = 1;
const NORMAL: u32 = 2;
const TANGENT: u32 = 3;
const BLEND_INDEX: u32 = 4;
const BLEND_WEIGHT: u32 = 5;
const COLOR: u32 = 6;
const UBYTE: u32 = 1;
const FLOAT: u32 = 7;

struct Array {
    tag: u32,
    format: u32,
    components: u32,
    data: Vec<u8>,
}

struct Model {
    vertex_count: u32,
    arrays: Vec<Array>,
    triangles: Vec<u32>,
    /// first vertex, vertex count, first triangle, triangle count
    submeshes: Vec<[u32; 4]>,
}

/// Where the pieces of a built file lie.
struct Built {
    bytes: Vec<u8>,
    array_data: Vec<usize>,
    triangles: usize,
    submeshes: usize,
}

fn put(out: &mut Vec<u8>, value: u32) {
    out.extend_from_slice(&value.to_le_bytes());
}

fn floats(values: &[f32]) -> Vec<u8> {
    let mut out = Vec::new();
    for value in values {
        put(&mut out, value.to_bits());
    }
    out
}

fn float_array(tag: u32, components: u32, values: &[f32]) -> Array {
    Array { tag, format: FLOAT, components, data: floats(values) }
}

fn byte_array(tag: u32, values: &[u8]) -> Array {
    Array { tag, format: UBYTE, components: 4, data: values.to_vec() }
}

fn build(model: &Model) -> Built {
    build_in_order(model, false)
}

/// With `arrays_last` the array data closes the file; otherwise the submesh
/// descriptors do.
fn build_in_order(model: &Model, arrays_last: bool) -> Built {
    let descriptors = 64usize;
    let size_of_arrays: usize = model.arrays.iter().map(|a| a.data.len()).sum();
    let size_of_rest = 4 * model.triangles.len() + 24 * model.submeshes.len();
    let after_descriptors = descriptors + 20 * model.arrays.len();
    let (mut place, triangles) = if arrays_last {
        (after_descriptors + size_of_rest, after_descriptors)
    } else {
        (after_descriptors, after_descriptors + size_of_arrays)
    };
    let mut array_data = Vec::new();
    for array in &model.arrays {
        array_data.push(place);
        place += array.data.len();
    }
    let submeshes = triangles + 4 * model.triangles.len();

    let mut out = Vec::new();
    out.extend_from_slice(b"INTERQUAKEMODEL\0");
    put(&mut out, 2);
    out.extend_from_slice(&[0xee; 16]);
    put(&mut out, model.submeshes.len() as u32);
    put(&mut out, submeshes as u32);
    put(&mut out, model.arrays.len() as u32);
    put(&mut out, model.vertex_count);
    put(&mut out, descriptors as u32);
    put(&mut out, (model.triangles.len() / 3) as u32);
    put(&mut out, triangles as u32);
    for (array, at) in model.arrays.iter().zip(&array_data) {
        put(&mut out, array.tag);
        put(&mut out, 0);
        put(&mut out, array.format);
        put(&mut out, array.components);
        put(&mut out, *at as u32);
    }
    if !arrays_last {
        for array in &model.arrays {
            out.extend_from_slice(&array.data);
        }
    }
    for index in &model.triangles {
        put(&mut out, *index);
    }
    for (k, submesh) in model.submeshes.iter().enumerate() {
        put(&mut out, 100 + k as u32);
        put(&mut out, 200 + k as u32);
        for field in submesh {
            put(&mut out, *field);
        }
    }
    if arrays_last {
        for array in &model.arrays {
            out.extend_from_slice(&array.data);
        }
    }
    Built { bytes: out, array_data, triangles, submeshes }
}

fn patch(bytes: &mut [u8], at: usize, value: u32) {
    bytes[at..at + 4].copy_from_slice(&value.to_le_bytes());
}

fn as_floats<const N: usize>(bits: [u32; N]) -> [f32; N] {
    bits.map(f32::from_bits)
}

const POSITIONS: [f32; 12] = [0.0, 0.5, 1.0, 1.5, 2.0, 2.5, -3.0, 3.5, 4.0, 4.5, -5.0, 5.5];
const TEX_COORDS: [f32; 8] = [0.25, 0.75, 0.125, 0.875, 1.0, 0.0, 0.5, 0.5];
const NORMALS: [f32; 12] = [1.0, 0.0, 0.0, 0.0, 1.0, 0.0, 0.0, 0.0, 1.0, 0.0, -1.0, 0.0];

/// Four vertices with position, texture coordinate and normal, two
/// triangles, one submesh over everything.
fn square() -> Model {
    Model {
        vertex_count: 4,
        arrays: vec![
            float_array(POSITION, 3, &POSITIONS),
            float_array(TEX_COORD, 2, &TEX_COORDS),
            float_array(NORMAL, 3, &NORMALS),
        ],
        triangles: vec![0, 1, 2, 2, 1, 3],
        submeshes: vec![[0, 4, 0, 2]],
    }
}

fn triangle() -> Model {
    Model {
        vertex_count: 3,
        arrays: vec![float_array(POSITION, 3, &POSITIONS[..9])],
        triangles: vec![2, 0, 1],
        submeshes: vec![[0, 3, 0, 1]],
    }
}

#[test]
fn record_sizes_are_those_of_the_format() {
    assert_eq!(DESCRIPTOR_SIZE, 20);
    assert_eq!(TRIANGLE_SIZE, 12);
    assert_eq!(SUBMESH_SIZE, 24);
}

#[test]
fn single_triangle_gives_one_mesh_of_three_vertices() {
    let meshes = load_iqm(&build(&triangle()).bytes).unwrap();
    assert_eq!(meshes.len(), 1);
    assert_eq!(meshes[0].vertex_buffer.len(), 3);
    assert_eq!(meshes[0].index_buffer.len(), 3);
    for index in &meshes[0].index_buffer {
        assert!(*index < 3);
    }
    assert_eq!(meshes[0].index_buffer, vec![2, 0, 1]);
}

#[test]
fn gathered_attributes_equal_what_the_file_holds() {
    let meshes = load_iqm(&build(&square()).bytes).unwrap();
    assert_eq!(meshes.len(), 1);
    let vertices = &meshes[0].vertex_buffer;
    assert_eq!(vertices.len(), 4);
    for (v, vertex) in vertices.iter().enumerate() {
        assert_eq!(as_floats(vertex.position)[..], POSITIONS[3 * v..3 * v + 3]);
        assert_eq!(as_floats(vertex.tex_coord)[..], TEX_COORDS[2 * v..2 * v + 2]);
        assert_eq!(as_floats(vertex.normal)[..], NORMALS[3 * v..3 * v + 3]);
    }
    assert_eq!(meshes[0].index_buffer, vec![0, 1, 2, 2, 1, 3]);
}

#[test]
fn scalars_keep_their_exact_bits() {
    let mut model = triangle();
    let odd: [u32; 9] = [
        0x7fc0_0001, 0xffff_ffff, 0x8000_0000, 0x0000_0001, 0x7f80_0000, 0xff80_0000, 0x0102_0304,
        0xdead_beef, 0,
    ];
    let mut data = Vec::new();
    for bits in odd {
        put(&mut data, bits);
    }
    model.arrays[0].data = data;
    let meshes = load_iqm(&build(&model).bytes).unwrap();
    assert_eq!(meshes[0].vertex_buffer[0].position, [0x7fc0_0001, 0xffff_ffff, 0x8000_0000]);
    assert_eq!(meshes[0].vertex_buffer[1].position, [0x0000_0001, 0x7f80_0000, 0xff80_0000]);
    assert_eq!(meshes[0].vertex_buffer[2].position, [0x0102_0304, 0xdead_beef, 0]);
}

#[test]
fn missing_tangents_are_zero() {
    let meshes = load_iqm(&build(&square()).bytes).unwrap();
    for vertex in &meshes[0].vertex_buffer {
        assert_eq!(vertex.tangent, [0, 0, 0, 0]);
        assert_eq!(as_floats(vertex.tangent), [0.0, 0.0, 0.0, 0.0]);
    }
}

#[test]
fn omitting_the_tangent_descriptor_changes_only_the_tangents() {
    let tangents: Vec<f32> = (0..16).map(|k| k as f32 + 0.5).collect();
    let mut with = square();
    with.arrays.push(float_array(TANGENT, 4, &tangents));
    let with = load_iqm(&build(&with).bytes).unwrap();
    let without = load_iqm(&build(&square()).bytes).unwrap();
    assert_eq!(with[0].index_buffer, without[0].index_buffer);
    for (v, (a, b)) in with[0].vertex_buffer.iter().zip(&without[0].vertex_buffer).enumerate() {
        assert_eq!(as_floats(a.tangent)[..], tangents[4 * v..4 * v + 4]);
        assert_eq!(b.tangent, [0, 0, 0, 0]);
        assert_eq!(Vertex { tangent: [0; 4], ..*a }, *b);
    }
}

#[test]
fn all_seven_channels_are_gathered() {
    let mut model = triangle();
    model.arrays.push(float_array(TEX_COORD, 2, &TEX_COORDS[..6]));
    model.arrays.push(float_array(NORMAL, 3, &NORMALS[..9]));
    model.arrays.push(float_array(TANGENT, 4, &[1.0, 2.0, 3.0, 4.0, 5.0, 6.0, 7.0, 8.0, 9.0, 10.0, 11.0, 12.0]));
    model.arrays.push(byte_array(BLEND_INDEX, &[1, 2, 3, 4, 5, 6, 7, 8, 9, 10, 11, 12]));
    model.arrays.push(byte_array(BLEND_WEIGHT, &[255, 0, 0, 0, 128, 127, 0, 0, 64, 64, 64, 63]));
    model.arrays.push(byte_array(COLOR, &[10, 20, 30, 40, 50, 60, 70, 80, 90, 100, 110, 120]));
    let meshes = load_iqm(&build(&model).bytes).unwrap();
    assert_eq!(
        meshes[0].vertex_buffer[1],
        Vertex {
            position: [1.5f32.to_bits(), 2.0f32.to_bits(), 2.5f32.to_bits()],
            tex_coord: [0.125f32.to_bits(), 0.875f32.to_bits()],
            normal: [0.0f32.to_bits(), 1.0f32.to_bits(), 0.0f32.to_bits()],
            tangent: [5.0f32.to_bits(), 6.0f32.to_bits(), 7.0f32.to_bits(), 8.0f32.to_bits()],
            blend_indices: [5, 6, 7, 8],
            blend_weights: [128, 127, 0, 0],
            color: [50, 60, 70, 80],
        }
    );
    assert_eq!(meshes[0].vertex_buffer[2].color, [90, 100, 110, 120]);
    assert_eq!(meshes[0].vertex_buffer[0].blend_indices, [1, 2, 3, 4]);
}

#[test]
fn a_file_without_any_array_gives_zero_vertices() {
    let mut model = triangle();
    model.arrays.clear();
    let meshes = load_iqm(&build(&model).bytes).unwrap();
    let zero = Vertex {
        position: [0; 3],
        tex_coord: [0; 2],
        normal: [0; 3],
        tangent: [0; 4],
        blend_indices: [0; 4],
        blend_weights: [0; 4],
        color: [0; 4],
    };
    assert_eq!(meshes[0].vertex_buffer, vec![zero; 3]);
}

#[test]
fn index_one_past_the_window_is_out_of_range() {
    let mut model = triangle();
    model.triangles = vec![0, 1, 3];
    assert_eq!(load_iqm(&build(&model).bytes), Err(FormatError::IndexOutOfRange));
    model.triangles = vec![0, 1, 2];
    assert!(load_iqm(&build(&model).bytes).is_ok());
}

#[test]
fn one_bad_submesh_fails_the_file_whatever_the_others_hold() {
    let mut model = square();
    model.triangles = vec![0, 1, 2, 2, 1, 3, 0, 1, 2];
    // windows: vertices 0..3, 1..4, 0..3
    model.submeshes = vec![[0, 3, 0, 1], [1, 3, 1, 1], [0, 3, 2, 1]];
    assert!(load_iqm(&build(&model).bytes).is_ok());
    for bad in 0..3usize {
        let mut broken = Model { triangles: model.triangles.clone(), ..square() };
        broken.submeshes = model.submeshes.clone();
        let window = broken.submeshes[bad];
        // one past the last vertex of the window
        broken.triangles[3 * bad + 1] = window[0] + window[1];
        if bad == 0 {
            // 3 is a vertex of the second window, in which the first submesh has no part
            assert_eq!(broken.triangles[1], 3);
        }
        assert_eq!(load_iqm(&build(&broken).bytes), Err(FormatError::IndexOutOfRange));
    }
}

#[test]
fn index_below_the_window_is_out_of_range() {
    let mut model = square();
    model.submeshes = vec![[1, 3, 0, 1]];
    model.triangles = vec![1, 2, 0, 1, 2, 3];
    assert_eq!(load_iqm(&build(&model).bytes), Err(FormatError::IndexOutOfRange));
    model.submeshes = vec![[1, 3, 1, 1]];
    assert_eq!(load_iqm(&build(&model).bytes).unwrap()[0].index_buffer, vec![0, 1, 2]);
}

#[test]
fn triangle_window_past_the_index_buffer_is_out_of_range() {
    let mut model = square();
    model.submeshes = vec![[0, 4, 1, 2]];
    assert_eq!(load_iqm(&build(&model).bytes), Err(FormatError::IndexOutOfRange));
    model.submeshes = vec![[0, 4, u32::MAX, u32::MAX]];
    assert_eq!(load_iqm(&build(&model).bytes), Err(FormatError::IndexOutOfRange));
}

#[test]
fn decoding_twice_gives_the_same() {
    let file = build(&square()).bytes;
    let first = load_iqm(&file);
    let second = load_iqm(&file);
    assert!(first.is_ok());
    assert_eq!(first, second);

    let copy = file.clone();
    assert_eq!(load_iqm(&copy), first);

    let mut scratch = file.clone();
    let kept = scratch[70];
    scratch[70] = !kept;
    let _ = load_iqm(&scratch);
    scratch[70] = kept;
    assert_eq!(load_iqm(&scratch), first);

    let broken = &file[..file.len() - 1];
    assert_eq!(load_iqm(broken), load_iqm(&broken.to_vec()));
    assert_eq!(load_iqm(broken), Err(FormatError::TruncatedInput));
}

#[test]
fn overlapping_windows_are_rebased_each_by_its_own_start() {
    let mut model = square();
    // vertices 0..3 and 1..4 share the vertices 1 and 2
    model.submeshes = vec![[0, 3, 0, 1], [1, 3, 1, 1]];
    model.triangles = vec![0, 1, 2, 2, 1, 3];
    let meshes = load_iqm(&build(&model).bytes).unwrap();
    assert_eq!(meshes.len(), 2);
    assert_eq!(meshes[0].index_buffer, vec![0, 1, 2]);
    assert_eq!(meshes[1].index_buffer, vec![1, 0, 2]);
    assert_eq!(meshes[0].vertex_buffer.len(), 3);
    assert_eq!(meshes[1].vertex_buffer.len(), 3);
    // the shared vertices are the same vertices
    assert_eq!(meshes[0].vertex_buffer[1], meshes[1].vertex_buffer[0]);
    assert_eq!(meshes[0].vertex_buffer[2], meshes[1].vertex_buffer[1]);
    assert_eq!(as_floats(meshes[1].vertex_buffer[2].position), [4.5, -5.0, 5.5]);
    // every local index names the vertex that the global index named
    for (mesh, window) in meshes.iter().zip(&model.submeshes) {
        for (k, local) in mesh.index_buffer.iter().enumerate() {
            let global = model.triangles[3 * window[2] as usize + k] as usize;
            assert_eq!(
                as_floats(mesh.vertex_buffer[*local as usize].position)[..],
                POSITIONS[3 * global..3 * global + 3]
            );
        }
    }
}

#[test]
fn submeshes_come_out_in_file_order() {
    let mut model = square();
    model.submeshes = vec![[3, 1, 0, 0], [0, 2, 0, 0], [2, 1, 0, 0]];
    let meshes = load_iqm(&build(&model).bytes).unwrap();
    let firsts: Vec<[f32; 3]> = meshes.iter().map(|m| as_floats(m.vertex_buffer[0].position)).collect();
    assert_eq!(firsts, vec![[4.5, -5.0, 5.5], [0.0, 0.5, 1.0], [-3.0, 3.5, 4.0]]);
    assert_eq!(meshes[0].vertex_buffer.len(), 1);
    assert_eq!(meshes[1].vertex_buffer.len(), 2);
    assert!(meshes.iter().all(|m| m.index_buffer.is_empty()));
}

#[test]
fn no_submeshes_give_no_meshes() {
    let mut model = square();
    model.submeshes.clear();
    assert_eq!(load_iqm(&build(&model).bytes), Ok(vec![]));
}

#[test]
fn position_with_another_layout_is_an_error() {
    let mut model = square();
    model.arrays[0].components = 4;
    assert_eq!(
        load_iqm(&build(&model).bytes),
        Err(FormatError::UnexpectedLayout {
            channel: Channel::Position,
            expected: Layout { format: 7, components: 3 },
            found: Layout { format: 7, components: 4 },
        })
    );
    let mut model = square();
    model.arrays[0].format = 8;
    assert_eq!(
        load_iqm(&build(&model).bytes),
        Err(FormatError::UnexpectedLayout {
            channel: Channel::Position,
            expected: Layout { format: 7, components: 3 },
            found: Layout { format: 8, components: 3 },
        })
    );
}

#[test]
fn optional_channel_with_another_layout_is_left_at_zero() {
    for (slot, format, components) in [(1usize, FLOAT, 3u32), (1, UBYTE, 2), (2, 6, 3), (2, FLOAT, 4)] {
        let mut model = square();
        model.arrays[slot].format = format;
        model.arrays[slot].components = components;
        let meshes = load_iqm(&build(&model).bytes).unwrap();
        for (v, vertex) in meshes[0].vertex_buffer.iter().enumerate() {
            assert_eq!(as_floats(vertex.position)[..], POSITIONS[3 * v..3 * v + 3]);
            if slot == 1 {
                assert_eq!(vertex.tex_coord, [0, 0]);
                assert_eq!(as_floats(vertex.normal)[..], NORMALS[3 * v..3 * v + 3]);
            } else {
                assert_eq!(vertex.normal, [0, 0, 0]);
                assert_eq!(as_floats(vertex.tex_coord)[..], TEX_COORDS[2 * v..2 * v + 2]);
            }
        }
    }
    let mut model = square();
    model.arrays.push(Array { tag: COLOR, format: FLOAT, components: 4, data: vec![9; 64] });
    model.arrays.push(Array { tag: TANGENT, format: FLOAT, components: 3, data: vec![9; 64] });
    let meshes = load_iqm(&build(&model).bytes).unwrap();
    assert!(meshes[0].vertex_buffer.iter().all(|v| v.color == [0; 4] && v.tangent == [0; 4]));
}

#[test]
fn unknown_channels_are_passed_over() {
    let mut model = square();
    model.arrays.insert(0, Array { tag: 7, format: 99, components: 17, data: vec![1, 2, 3] });
    model.arrays.push(Array { tag: 0x10, format: FLOAT, components: 3, data: vec![] });
    let with = load_iqm(&build(&model).bytes).unwrap();
    let without = load_iqm(&build(&square()).bytes).unwrap();
    assert_eq!(with, without);
}

#[test]
fn position_data_cut_short_is_truncated() {
    let model = Model {
        vertex_count: 3,
        arrays: vec![float_array(POSITION, 3, &POSITIONS[..9])],
        triangles: vec![],
        submeshes: vec![],
    };
    let file = build(&model).bytes;
    assert_eq!(load_iqm(&file), Ok(vec![]));
    assert_eq!(load_iqm(&file[..file.len() - 1]), Err(FormatError::TruncatedInput));
}

/// Three vertices in one submesh, the position data first and the data of
/// `last` at the end of the file, of which `cut` bytes are then taken away.
fn cut_file(last: Array, cut: usize) -> Vec<u8> {
    let model = Model {
        vertex_count: 3,
        arrays: vec![float_array(POSITION, 3, &POSITIONS[..9]), last],
        triangles: vec![0, 1, 2],
        submeshes: vec![[0, 3, 0, 1]],
    };
    let mut file = build_in_order(&model, true).bytes;
    file.truncate(file.len() - cut);
    file
}

#[test]
fn texture_coordinates_cut_short_read_as_zero() {
    // 24 bytes of data, of which 18 are left: four whole scalars
    let file = cut_file(float_array(TEX_COORD, 2, &TEX_COORDS[..6]), 6);
    let meshes = load_iqm(&file).unwrap();
    let vertices = &meshes[0].vertex_buffer;
    assert_eq!(as_floats(vertices[0].tex_coord), [0.25, 0.75]);
    assert_eq!(as_floats(vertices[1].tex_coord), [0.125, 0.875]);
    assert_eq!(vertices[2].tex_coord, [0, 0]);
    assert_eq!(as_floats(vertices[2].position), [-3.0, 3.5, 4.0]);
}

#[test]
fn normals_cut_short_read_as_zero() {
    // 36 bytes of data, of which 7 are left: one whole scalar
    let file = cut_file(float_array(NORMAL, 3, &[0.5, 0.25, 0.125, 1.0, 1.0, 1.0, 1.0, 1.0, 1.0]), 29);
    let meshes = load_iqm(&file).unwrap();
    let vertices = &meshes[0].vertex_buffer;
    assert_eq!(vertices[0].normal, [0.5f32.to_bits(), 0, 0]);
    assert_eq!(vertices[1].normal, [0, 0, 0]);
    assert_eq!(vertices[2].normal, [0, 0, 0]);
}

#[test]
fn tangents_cut_off_read_as_zero() {
    let file = cut_file(float_array(TANGENT, 4, &[1.0; 12]), 48);
    let meshes = load_iqm(&file).unwrap();
    assert!(meshes[0].vertex_buffer.iter().all(|v| v.tangent == [0; 4]));
    let file = cut_file(float_array(TANGENT, 4, &[1.0; 12]), 16);
    let meshes = load_iqm(&file).unwrap();
    let one = 1.0f32.to_bits();
    assert_eq!(meshes[0].vertex_buffer[1].tangent, [one; 4]);
    assert_eq!(meshes[0].vertex_buffer[2].tangent, [0; 4]);
}

#[test]
fn bytes_cut_short_read_as_zero() {
    for tag in [BLEND_INDEX, BLEND_WEIGHT, COLOR] {
        let file = cut_file(byte_array(tag, &[1, 2, 3, 4, 5, 6, 7, 8, 9, 10, 11, 12]), 6);
        let meshes = load_iqm(&file).unwrap();
        let read: Vec<[u8; 4]> = meshes[0]
            .vertex_buffer
            .iter()
            .map(|v| match tag {
                BLEND_INDEX => v.blend_indices,
                BLEND_WEIGHT => v.blend_weights,
                _ => v.color,
            })
            .collect();
        assert_eq!(read, vec![[1, 2, 3, 4], [5, 6, 0, 0], [0, 0, 0, 0]]);
    }
}

#[test]
fn positions_cut_short_are_not_filled() {
    let mut model = triangle();
    model.arrays.insert(0, float_array(NORMAL, 3, &NORMALS[..9]));
    let whole = build_in_order(&model, true).bytes;
    assert!(load_iqm(&whole).is_ok());
    for cut in 1..=36 {
        assert_eq!(load_iqm(&whole[..whole.len() - cut]), Err(FormatError::TruncatedInput));
    }
}

#[test]
fn descriptor_cut_short_is_truncated() {
    let model = Model { vertex_count: 0, arrays: vec![float_array(7, 3, &[])], triangles: vec![], submeshes: vec![] };
    let file = build(&model).bytes;
    assert_eq!(file.len(), 84);
    assert_eq!(load_iqm(&file), Ok(vec![]));
    for len in 64..84 {
        assert_eq!(load_iqm(&file[..len]), Err(FormatError::TruncatedInput));
    }
}

#[test]
fn more_descriptors_declared_than_held_is_truncated() {
    let unknown = || Array { tag: 0xffff_ffff, format: 0, components: 0, data: vec![] };
    let model = Model {
        vertex_count: 1,
        arrays: vec![unknown(), unknown(), unknown()],
        triangles: vec![],
        submeshes: vec![],
    };
    let mut file = build(&model).bytes;
    assert_eq!(load_iqm(&file), Ok(vec![]));
    patch(&mut file, 44, 4);
    assert_eq!(load_iqm(&file), Err(FormatError::TruncatedInput));
    patch(&mut file, 44, u32::MAX);
    assert_eq!(load_iqm(&file), Err(FormatError::TruncatedInput));
}

#[test]
fn a_second_block_of_a_channel_follows_the_first() {
    let mut model = triangle();
    let second: Vec<f32> = (0..9).map(|k| 100.0 + k as f32).collect();
    model.arrays.push(float_array(POSITION, 3, &second));
    model.submeshes = vec![[0, 3, 0, 1], [3, 3, 0, 0]];
    let meshes = load_iqm(&build(&model).bytes).unwrap();
    assert_eq!(as_floats(meshes[0].vertex_buffer[0].position), [0.0, 0.5, 1.0]);
    assert_eq!(as_floats(meshes[0].vertex_buffer[2].position), [-3.0, 3.5, 4.0]);
    assert_eq!(as_floats(meshes[1].vertex_buffer[0].position), [100.0, 101.0, 102.0]);
    assert_eq!(as_floats(meshes[1].vertex_buffer[2].position), [106.0, 107.0, 108.0]);
}

#[test]
fn vertices_past_the_data_are_zero() {
    let mut model = triangle();
    model.submeshes = vec![[2, 3, 0, 0]];
    let meshes = load_iqm(&build(&model).bytes).unwrap();
    assert_eq!(as_floats(meshes[0].vertex_buffer[0].position), [-3.0, 3.5, 4.0]);
    assert_eq!(meshes[0].vertex_buffer[1].position, [0, 0, 0]);
    assert_eq!(meshes[0].vertex_buffer[2].position, [0, 0, 0]);
    model.submeshes = vec![[u32::MAX, 2, 0, 0]];
    let meshes = load_iqm(&build(&model).bytes).unwrap();
    assert_eq!(meshes[0].vertex_buffer.len(), 2);
    assert_eq!(meshes[0].vertex_buffer[1].position, [0, 0, 0]);
}

#[test]
fn triangles_cut_short_are_truncated() {
    let mut model = square();
    model.submeshes.clear();
    let file = build(&model).bytes;
    assert_eq!(load_iqm(&file), Ok(vec![]));
    for cut in 1..24 {
        assert_eq!(load_iqm(&file[..file.len() - cut]), Err(FormatError::TruncatedInput));
    }
}

#[test]
fn no_triangles_may_point_anywhere() {
    let mut model = triangle();
    model.triangles.clear();
    model.submeshes = vec![[0, 3, 0, 0]];
    let mut file = build(&model).bytes;
    patch(&mut file, 60, u32::MAX);
    let meshes = load_iqm(&file).unwrap();
    assert_eq!(meshes[0].vertex_buffer.len(), 3);
    assert!(meshes[0].index_buffer.is_empty());
}

#[test]
fn submesh_descriptor_cut_short_is_truncated() {
    let file = build(&square()).bytes;
    assert!(load_iqm(&file).is_ok());
    for cut in 1..24 {
        assert_eq!(load_iqm(&file[..file.len() - cut]), Err(FormatError::TruncatedInput));
    }
}

#[test]
fn errors_come_in_the_order_of_the_stages() {
    // a bad position layout is found before the missing triangles and the bad index
    let mut model = square();
    model.triangles = vec![0, 1, 9, 2, 1, 3];
    assert_eq!(load_iqm(&build(&model).bytes), Err(FormatError::IndexOutOfRange));
    let mut file = build(&model).bytes;
    patch(&mut file, 56, 1000);
    assert_eq!(load_iqm(&file), Err(FormatError::TruncatedInput));
    model.arrays[0].components = 2;
    let mut file = build(&model).bytes;
    patch(&mut file, 56, 1000);
    assert!(matches!(load_iqm(&file), Err(FormatError::UnexpectedLayout { .. })));
}

#[test]
fn the_first_failing_submesh_decides() {
    let mut model = square();
    model.submeshes = vec![[0, 4, 0, 2], [0, 1, 0, 1], [0, 4, 0, 2]];
    let built = build(&model);
    // the second submesh has an index outside its window, the third is cut off
    let cut = &built.bytes[..built.submeshes + 2 * 24 + 10];
    assert_eq!(load_iqm(cut), Err(FormatError::IndexOutOfRange));
    // with the second cut off too, the truncation comes first
    let cut = &built.bytes[..built.submeshes + 24 + 10];
    assert_eq!(load_iqm(cut), Err(FormatError::TruncatedInput));
}

#[test]
fn descriptors_are_read_where_the_header_points() {
    let built = build(&square());
    let header = parse_header(&built.bytes).unwrap();
    assert_eq!(
        read_descriptor(&built.bytes, &header, 1),
        Ok(VertexArrayDescriptor {
            channel_tag: TEX_COORD,
            flags: 0,
            format: FLOAT,
            components: 2,
            offset: built.array_data[1] as u32,
        })
    );
    assert_eq!(read_descriptor(&built.bytes[..100], &header, 2), Err(FormatError::TruncatedInput));
    assert_eq!(read_descriptor(&built.bytes, &header, u32::MAX), Err(FormatError::TruncatedInput));
}

#[test]
fn one_vertex_array_fills_one_channel() {
    let built = build(&square());
    let header = parse_header(&built.bytes).unwrap();
    let mut buffers = AttributeBuffers::new();
    assert_eq!(read_vertex_array(&built.bytes, &header, 1, &mut buffers), Ok(()));
    assert!(buffers.positions.is_empty() && buffers.normals.is_empty());
    let expected: Vec<u32> = TEX_COORDS.iter().map(|v| v.to_bits()).collect();
    assert_eq!(buffers.tex_coords, expected);
    assert_eq!(read_vertex_array(&built.bytes, &header, 1, &mut buffers), Ok(()));
    assert_eq!(buffers.tex_coords.len(), 16);
    assert_eq!(buffers.tex_coords[8..], expected[..]);
    assert_eq!(
        read_vertex_array(&built.bytes, &header, u32::MAX, &mut buffers),
        Err(FormatError::TruncatedInput)
    );
    assert_eq!(buffers.tex_coords.len(), 16);
    assert!(buffers.positions.is_empty());
}

#[test]
fn vertex_arrays_fill_the_buffers() {
    let built = build(&square());
    let header = parse_header(&built.bytes).unwrap();
    let buffers = read_vertex_arrays(&built.bytes, &header).unwrap();
    assert_eq!(buffers.positions, POSITIONS.iter().map(|v| v.to_bits()).collect::<Vec<u32>>());
    assert_eq!(buffers.tex_coords, TEX_COORDS.iter().map(|v| v.to_bits()).collect::<Vec<u32>>());
    assert_eq!(buffers.normals, NORMALS.iter().map(|v| v.to_bits()).collect::<Vec<u32>>());
    assert!(buffers.tangents.is_empty());
    assert!(buffers.blend_indices.is_empty());
    assert!(buffers.blend_weights.is_empty());
    assert!(buffers.colors.is_empty());
}

#[test]
fn triangles_are_read_without_looking_at_the_vertex_count() {
    let mut model = square();
    model.triangles = vec![7, 8, 9, u32::MAX, 0, 1];
    let built = build(&model);
    let header = parse_header(&built.bytes).unwrap();
    assert_eq!(header.triangle_offset as usize, built.triangles);
    assert_eq!(read_triangles(&built.bytes, &header), Ok(vec![7, 8, 9, u32::MAX, 0, 1]));
}

#[test]
fn submesh_descriptors_are_read_where_the_header_points() {
    let mut model = square();
    model.submeshes = vec![[0, 4, 0, 2], [1, 2, 1, 1]];
    let built = build(&model);
    let header = parse_header(&built.bytes).unwrap();
    assert_eq!(
        read_submesh(&built.bytes, &header, 1),
        Ok(SubmeshDescriptor {
            name: 101,
            material: 201,
            first_vertex: 1,
            vertex_count: 2,
            first_triangle: 1,
            triangle_count: 1,
        })
    );
    assert_eq!(read_submesh(&built.bytes, &header, 2), Err(FormatError::TruncatedInput));
}

fn window(first_vertex: u32, vertex_count: u32, first_triangle: u32, triangle_count: u32) -> SubmeshDescriptor {
    SubmeshDescriptor { name: 0, material: 0, first_vertex, vertex_count, first_triangle, triangle_count }
}

#[test]
fn rebasing_subtracts_the_first_vertex() {
    let triangles = vec![0, 1, 2, 10, 12, 11, 12, 13, 10];
    assert_eq!(rebase_indices(&window(10, 4, 1, 2), &triangles), Ok(vec![0, 2, 1, 2, 3, 0]));
    assert_eq!(rebase_indices(&window(10, 3, 1, 2), &triangles), Err(FormatError::IndexOutOfRange));
    assert_eq!(rebase_indices(&window(11, 3, 1, 1), &triangles), Err(FormatError::IndexOutOfRange));
    assert_eq!(rebase_indices(&window(10, 4, 2, 2), &triangles), Err(FormatError::IndexOutOfRange));
    assert_eq!(rebase_indices(&window(10, 0, 3, 0), &triangles), Ok(vec![]));
    assert_eq!(rebase_indices(&window(0, 0, 0, 1), &triangles), Err(FormatError::IndexOutOfRange));
}

#[test]
fn rebasing_works_at_the_top_of_the_number_range() {
    let triangles = vec![u32::MAX, u32::MAX - 1, u32::MAX];
    assert_eq!(rebase_indices(&window(u32::MAX - 1, 2, 0, 1), &triangles), Ok(vec![1, 0, 1]));
    assert_eq!(rebase_indices(&window(u32::MAX - 1, 1, 0, 1), &triangles), Err(FormatError::IndexOutOfRange));
    assert_eq!(rebase_indices(&window(u32::MAX, u32::MAX, 0, 1), &triangles), Err(FormatError::IndexOutOfRange));
}

#[test]
fn vertices_are_gathered_by_global_number() {
    let mut buffers = AttributeBuffers::new();
    buffers.positions = (0..9).collect();
    buffers.tex_coords = (100..105).collect();
    buffers.colors = (0..12).collect();
    let vertex = gather_vertex(&buffers, 1);
    assert_eq!(vertex.position, [3, 4, 5]);
    assert_eq!(vertex.tex_coord, [102, 103]);
    assert_eq!(vertex.normal, [0, 0, 0]);
    assert_eq!(vertex.color, [4, 5, 6, 7]);
    let vertex = gather_vertex(&buffers, 2);
    assert_eq!(vertex.position, [6, 7, 8]);
    assert_eq!(vertex.tex_coord, [104, 0]);
    assert_eq!(gather_vertex(&buffers, 3).position, [0, 0, 0]);
    assert_eq!(gather_vertex(&buffers, u64::MAX).position, [0, 0, 0]);
    let vertices = gather_vertices(&window(1, 2, 0, 0), &buffers);
    assert_eq!(vertices, vec![gather_vertex(&buffers, 1), gather_vertex(&buffers, 2)]);
}

#[test]
fn one_submesh_is_assembled_from_buffers() {
    let mut buffers = AttributeBuffers::new();
    buffers.positions = (0..12).collect();
    let triangles = vec![1, 2, 3];
    let mesh = assemble_submesh(&window(1, 3, 0, 1), &buffers, &triangles).unwrap();
    assert_eq!(mesh.index_buffer, vec![0, 1, 2]);
    assert_eq!(mesh.vertex_buffer.len(), 3);
    assert_eq!(mesh.vertex_buffer[0].position, [3, 4, 5]);
    assert_eq!(
        assemble_submesh(&window(1, 2, 0, 1), &buffers, &triangles),
        Err(FormatError::IndexOutOfRange)
    );
}

#[test]
fn all_submeshes_are_assembled_from_buffers() {
    let mut model = square();
    model.submeshes = vec![[0, 3, 0, 1], [1, 3, 1, 1]];
    let built = build(&model);
    let header = parse_header(&built.bytes).unwrap();
    let buffers = read_vertex_arrays(&built.bytes, &header).unwrap();
    let triangles = read_triangles(&built.bytes, &header).unwrap();
    let meshes: Vec<Mesh> = assemble_submeshes(&built.bytes, &header, &buffers, &triangles).unwrap();
    assert_eq!(Ok(meshes), load_iqm(&built.bytes));
}
