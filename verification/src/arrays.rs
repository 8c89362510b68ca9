//! Vertex-array descriptors and the per-channel attribute buffers that they
//! fill.

use crate::bytes::{
    byte_block, in_bounds, le_u32_at, read_bytes_or_zero, read_words, read_words_or_zero,
    word_block, words_present, ByteCursor,
};
use crate::error::{Channel, FormatError, Layout};
use crate::header::Header;
use vstd::prelude::*;

verus! {

/// Bytes that one vertex-array descriptor takes in the file.
pub const DESCRIPTOR_SIZE: u64 = 20;

/// One channel declaration: five 32-bit fields in file order.
#[derive(Clone, Copy, Debug, PartialEq, Eq, Structural)]
pub struct VertexArrayDescriptor {
    pub channel_tag: u32,
    pub flags: u32,
    pub format: u32,
    pub components: u32,
    pub offset: u32,
}

impl VertexArrayDescriptor {
    /// The layout that the descriptor declares.
    pub open spec fn layout(self) -> Layout {
        Layout { format: self.format, components: self.components }
    }

    /// Whether the descriptor's data goes into the buffer of `channel`: its
    /// tag names that channel and its layout is the one the channel is read
    /// in.
    pub open spec fn feeds(self, channel: Channel) -> bool {
        Channel::of_tag(self.channel_tag) == Some(channel) && self.layout()
            == channel.expected_layout()
    }
}

/// Byte position of descriptor number `i`.
pub open spec fn descriptor_place(header: Header, i: int) -> int {
    header.vertex_array_offset + DESCRIPTOR_SIZE * i
}

/// Whether descriptor number `i` lies inside `data` as a whole.
pub open spec fn descriptor_present(data: Seq<u8>, header: Header, i: int) -> bool {
    in_bounds(data, descriptor_place(header, i), DESCRIPTOR_SIZE as int)
}

/// Descriptor number `i` as it stands in `data`.
pub open spec fn descriptor_at(data: Seq<u8>, header: Header, i: int) -> VertexArrayDescriptor {
    let at = descriptor_place(header, i);
    VertexArrayDescriptor {
        channel_tag: le_u32_at(data, at),
        flags: le_u32_at(data, at + 4),
        format: le_u32_at(data, at + 8),
        components: le_u32_at(data, at + 12),
        offset: le_u32_at(data, at + 16),
    }
}

/// Scalars that a channel holds for all the vertices of the file.
pub open spec fn scalar_count(header: Header, channel: Channel) -> int {
    match channel {
        Channel::Position => 3 * header.vertex_count,
        Channel::TexCoord => 2 * header.vertex_count,
        Channel::Normal => 3 * header.vertex_count,
        _ => 4 * header.vertex_count,
    }
}

/// Place of component `c` of vertex `v` in the buffer of `channel`.
pub open spec fn scalar_place(channel: Channel, v: int, c: int) -> int {
    match channel {
        Channel::Position => 3 * v + c,
        Channel::TexCoord => 2 * v + c,
        Channel::Normal => 3 * v + c,
        _ => 4 * v + c,
    }
}

/// The error, if any, that descriptor number `i` raises by itself.
///
/// A descriptor that does not fit into the buffer is a truncation. Beyond
/// that only a descriptor of a required channel can fail: with a layout
/// other than the expected one, or with data that the buffer does not hold
/// in full. An unknown tag and an optional channel raise nothing.
pub open spec fn descriptor_error(data: Seq<u8>, header: Header, i: int) -> Option<FormatError> {
    if !descriptor_present(data, header, i) {
        Some(FormatError::TruncatedInput)
    } else {
        let d = descriptor_at(data, header, i);
        match Channel::of_tag(d.channel_tag) {
            Some(channel) if channel.is_required() => {
                if d.layout() != channel.expected_layout() {
                    Some(
                        FormatError::UnexpectedLayout {
                            channel,
                            expected: channel.expected_layout(),
                            found: d.layout(),
                        },
                    )
                } else if !words_present(data, d.offset as int, scalar_count(header, channel)) {
                    Some(FormatError::TruncatedInput)
                } else {
                    None
                }
            },
            _ => None,
        }
    }
}

/// The first error among descriptors `0 .. n`, in file order.
pub open spec fn arrays_error(data: Seq<u8>, header: Header, n: int) -> Option<FormatError>
    decreases n,
{
    if n <= 0 {
        None
    } else {
        match arrays_error(data, header, n - 1) {
            Some(e) => Some(e),
            None => descriptor_error(data, header, n - 1),
        }
    }
}

/// The 32-bit scalars that descriptor number `i` appends to the buffer of
/// `channel`: one block of `scalar_count` words read at its data offset if it
/// feeds the channel, and nothing otherwise.
pub open spec fn fed_words(data: Seq<u8>, header: Header, channel: Channel, i: int) -> Seq<u32> {
    let d = descriptor_at(data, header, i);
    if d.feeds(channel) {
        word_block(data, d.offset as int, scalar_count(header, channel))
    } else {
        Seq::empty()
    }
}

/// The bytes that descriptor number `i` appends to the buffer of `channel`.
pub open spec fn fed_bytes(data: Seq<u8>, header: Header, channel: Channel, i: int) -> Seq<u8> {
    let d = descriptor_at(data, header, i);
    if d.feeds(channel) {
        byte_block(data, d.offset as int, scalar_count(header, channel))
    } else {
        Seq::empty()
    }
}

/// The 32-bit scalars that descriptors `0 .. n` put into the buffer of
/// `channel`, in descriptor order.
pub open spec fn channel_words(data: Seq<u8>, header: Header, channel: Channel, n: int) -> Seq<u32>
    decreases n,
{
    if n <= 0 {
        Seq::empty()
    } else {
        channel_words(data, header, channel, n - 1) + fed_words(data, header, channel, n - 1)
    }
}

/// The bytes that descriptors `0 .. n` put into the buffer of `channel`, in
/// descriptor order.
pub open spec fn channel_bytes(data: Seq<u8>, header: Header, channel: Channel, n: int) -> Seq<u8>
    decreases n,
{
    if n <= 0 {
        Seq::empty()
    } else {
        channel_bytes(data, header, channel, n - 1) + fed_bytes(data, header, channel, n - 1)
    }
}

/// One flat scalar sequence per channel. The scalars of vertex `v` in a
/// channel of `c` components stand at `c * v .. c * v + c`. A channel that
/// the file does not declare stays empty.
#[derive(Debug)]
pub struct AttributeBuffers {
    pub positions: Vec<u32>,
    pub tex_coords: Vec<u32>,
    pub normals: Vec<u32>,
    pub tangents: Vec<u32>,
    pub blend_indices: Vec<u8>,
    pub blend_weights: Vec<u8>,
    pub colors: Vec<u8>,
}

/// The contents of [`AttributeBuffers`].
pub ghost struct AttributeSeqs {
    pub positions: Seq<u32>,
    pub tex_coords: Seq<u32>,
    pub normals: Seq<u32>,
    pub tangents: Seq<u32>,
    pub blend_indices: Seq<u8>,
    pub blend_weights: Seq<u8>,
    pub colors: Seq<u8>,
}

impl AttributeSeqs {
    /// No data in any channel.
    pub open spec fn empty() -> AttributeSeqs {
        AttributeSeqs {
            positions: Seq::empty(),
            tex_coords: Seq::empty(),
            normals: Seq::empty(),
            tangents: Seq::empty(),
            blend_indices: Seq::empty(),
            blend_weights: Seq::empty(),
            colors: Seq::empty(),
        }
    }

    /// The buffer of one of the four channels of 32-bit scalars; empty for
    /// the other channels.
    pub open spec fn words(self, channel: Channel) -> Seq<u32> {
        match channel {
            Channel::Position => self.positions,
            Channel::TexCoord => self.tex_coords,
            Channel::Normal => self.normals,
            Channel::Tangent => self.tangents,
            _ => Seq::empty(),
        }
    }

    /// The buffer of one of the three channels of bytes; empty for the
    /// other channels.
    pub open spec fn bytes(self, channel: Channel) -> Seq<u8> {
        match channel {
            Channel::BlendIndex => self.blend_indices,
            Channel::BlendWeight => self.blend_weights,
            Channel::Color => self.colors,
            _ => Seq::empty(),
        }
    }

    /// Channel by channel, the data of `self` followed by that of `more`.
    pub open spec fn followed_by(self, more: AttributeSeqs) -> AttributeSeqs {
        AttributeSeqs {
            positions: self.positions + more.positions,
            tex_coords: self.tex_coords + more.tex_coords,
            normals: self.normals + more.normals,
            tangents: self.tangents + more.tangents,
            blend_indices: self.blend_indices + more.blend_indices,
            blend_weights: self.blend_weights + more.blend_weights,
            colors: self.colors + more.colors,
        }
    }
}

impl View for AttributeBuffers {
    type V = AttributeSeqs;

    open spec fn view(&self) -> AttributeSeqs {
        AttributeSeqs {
            positions: self.positions@,
            tex_coords: self.tex_coords@,
            normals: self.normals@,
            tangents: self.tangents@,
            blend_indices: self.blend_indices@,
            blend_weights: self.blend_weights@,
            colors: self.colors@,
        }
    }
}

impl AttributeBuffers {
    /// Buffers with no data in any channel.
    pub fn new() -> (buffers: Self)
        ensures
            buffers@ == AttributeSeqs::empty(),
    {
        AttributeBuffers {
            positions: Vec::new(),
            tex_coords: Vec::new(),
            normals: Vec::new(),
            tangents: Vec::new(),
            blend_indices: Vec::new(),
            blend_weights: Vec::new(),
            colors: Vec::new(),
        }
    }
}

/// The buffers after descriptors `0 .. n`.
pub open spec fn attributes_upto(data: Seq<u8>, header: Header, n: int) -> AttributeSeqs {
    AttributeSeqs {
        positions: channel_words(data, header, Channel::Position, n),
        tex_coords: channel_words(data, header, Channel::TexCoord, n),
        normals: channel_words(data, header, Channel::Normal, n),
        tangents: channel_words(data, header, Channel::Tangent, n),
        blend_indices: channel_bytes(data, header, Channel::BlendIndex, n),
        blend_weights: channel_bytes(data, header, Channel::BlendWeight, n),
        colors: channel_bytes(data, header, Channel::Color, n),
    }
}

/// What reading all the vertex arrays that `header` declares yields: the
/// first error in descriptor order, or else the filled buffers.
pub open spec fn vertex_arrays_of(data: Seq<u8>, header: Header) -> Result<
    AttributeSeqs,
    FormatError,
> {
    match arrays_error(data, header, header.vertex_array_count as int) {
        Some(e) => Err(e),
        None => Ok(attributes_upto(data, header, header.vertex_array_count as int)),
    }
}

/// Reads descriptor number `i`.
pub fn read_descriptor(data: &[u8], header: &Header, i: u32) -> (r: Result<
    VertexArrayDescriptor,
    FormatError,
>)
    ensures
        match r {
            Ok(d) => descriptor_present(data@, *header, i as int) && d == descriptor_at(
                data@,
                *header,
                i as int,
            ),
            Err(e) => e == FormatError::TruncatedInput && !descriptor_present(
                data@,
                *header,
                i as int,
            ),
        },
{
    let mut cursor = ByteCursor::new(data);
    cursor.seek(header.vertex_array_offset as u64 + DESCRIPTOR_SIZE * (i as u64));
    if data.len() as u64 >= DESCRIPTOR_SIZE && cursor.position() <= data.len() as u64
        - DESCRIPTOR_SIZE {
        let channel_tag = cursor.read_u32()?;
        let flags = cursor.read_u32()?;
        let format = cursor.read_u32()?;
        let components = cursor.read_u32()?;
        let offset = cursor.read_u32()?;
        Ok(VertexArrayDescriptor { channel_tag, flags, format, components, offset })
    } else {
        Err(FormatError::TruncatedInput)
    }
}

/// What descriptor number `i` appends to each channel.
pub open spec fn fed_attributes(data: Seq<u8>, header: Header, i: int) -> AttributeSeqs {
    AttributeSeqs {
        positions: fed_words(data, header, Channel::Position, i),
        tex_coords: fed_words(data, header, Channel::TexCoord, i),
        normals: fed_words(data, header, Channel::Normal, i),
        tangents: fed_words(data, header, Channel::Tangent, i),
        blend_indices: fed_bytes(data, header, Channel::BlendIndex, i),
        blend_weights: fed_bytes(data, header, Channel::BlendWeight, i),
        colors: fed_bytes(data, header, Channel::Color, i),
    }
}

/// Once a descriptor has raised an error, later descriptors do not change
/// it.
pub proof fn lemma_arrays_error_stays(data: Seq<u8>, header: Header, i: int, n: int)
    requires
        0 <= i <= n,
        arrays_error(data, header, i) is Some,
    ensures
        arrays_error(data, header, n) == arrays_error(data, header, i),
    decreases n - i,
{
    if i < n {
        lemma_arrays_error_stays(data, header, i, n - 1);
    }
}

/// The block of the first descriptor that feeds a channel stands at the
/// start of the channel's buffer, and blocks of later descriptors follow it.
pub proof fn lemma_first_block_leads(
    data: Seq<u8>,
    header: Header,
    channel: Channel,
    first: int,
    n: int,
)
    requires
        0 <= first < n,
        descriptor_at(data, header, first).feeds(channel),
        forall|i: int| 0 <= i < first ==> !(#[trigger] descriptor_at(data, header, i)).feeds(channel),
    ensures
        fed_words(data, header, channel, first).is_prefix_of(
            channel_words(data, header, channel, n),
        ),
        fed_bytes(data, header, channel, first).is_prefix_of(
            channel_bytes(data, header, channel, n),
        ),
    decreases n,
{
    if n == first + 1 {
        lemma_unfed_channel_is_empty(data, header, channel, first);
        assert(channel_words(data, header, channel, n) =~= fed_words(
            data,
            header,
            channel,
            first,
        ));
        assert(channel_bytes(data, header, channel, n) =~= fed_bytes(
            data,
            header,
            channel,
            first,
        ));
    } else {
        lemma_first_block_leads(data, header, channel, first, n - 1);
    }
}

/// A channel that none of the descriptors `0 .. n` feeds holds no data.
pub proof fn lemma_unfed_channel_is_empty(data: Seq<u8>, header: Header, channel: Channel, n: int)
    requires
        forall|i: int| 0 <= i < n ==> !(#[trigger] descriptor_at(data, header, i)).feeds(channel),
    ensures
        channel_words(data, header, channel, n) == Seq::<u32>::empty(),
        channel_bytes(data, header, channel, n) == Seq::<u8>::empty(),
    decreases n,
{
    if n > 0 {
        lemma_unfed_channel_is_empty(data, header, channel, n - 1);
        assert(!descriptor_at(data, header, n - 1).feeds(channel));
        assert(channel_words(data, header, channel, n) =~= Seq::<u32>::empty());
        assert(channel_bytes(data, header, channel, n) =~= Seq::<u8>::empty());
    }
}

/// The descriptors `0 .. n` pass without an error exactly when none of them
/// raises one by itself.
pub proof fn lemma_arrays_pass_iff_each_does(data: Seq<u8>, header: Header, n: int)
    ensures
        arrays_error(data, header, n) is None <==> forall|i: int|
            0 <= i < n ==> #[trigger] descriptor_error(data, header, i) is None,
    decreases n,
{
    if n > 0 {
        lemma_arrays_pass_iff_each_does(data, header, n - 1);
    }
}

/// A descriptor that the buffer holds raises no error unless it declares a
/// required channel: nothing about an optional channel or an unknown tag can
/// fail the decoding.
pub proof fn lemma_optional_channel_never_fails(data: Seq<u8>, header: Header, i: int)
    requires
        descriptor_present(data, header, i),
        match Channel::of_tag(descriptor_at(data, header, i).channel_tag) {
            Some(channel) => !channel.is_required(),
            None => true,
        },
    ensures
        descriptor_error(data, header, i) is None,
{
}

/// Reads descriptor number `i` and appends the data that it declares to the
/// buffer of its channel. On an error the buffers stay as they were.
pub fn read_vertex_array(
    data: &[u8],
    header: &Header,
    i: u32,
    buffers: &mut AttributeBuffers,
) -> (r: Result<(), FormatError>)
    ensures
        match r {
            Ok(_) => {
                &&& descriptor_error(data@, *header, i as int) is None
                &&& final(buffers)@ == old(buffers)@.followed_by(
                    fed_attributes(data@, *header, i as int),
                )
            },
            Err(e) => {
                &&& descriptor_error(data@, *header, i as int) == Some(e)
                &&& final(buffers)@ == old(buffers)@
            },
        },
{
    let d = read_descriptor(data, header, i)?;
    let at: u64 = d.offset as u64;
    let vertices: u64 = header.vertex_count as u64;
    match Channel::from_tag(d.channel_tag) {
        None => {},
        Some(channel) => {
            let expected = channel.layout();
            if d.format != expected.format || d.components != expected.components {
                if matches!(channel, Channel::Position) {
                    return Err(
                        FormatError::UnexpectedLayout {
                            channel,
                            expected,
                            found: Layout { format: d.format, components: d.components },
                        },
                    );
                }
            } else {
                match channel {
                    Channel::Position => {
                        read_words(data, at, 3 * vertices, &mut buffers.positions)?;
                    },
                    Channel::TexCoord => {
                        read_words_or_zero(data, at, 2 * vertices, &mut buffers.tex_coords);
                    },
                    Channel::Normal => {
                        read_words_or_zero(data, at, 3 * vertices, &mut buffers.normals);
                    },
                    Channel::Tangent => {
                        read_words_or_zero(data, at, 4 * vertices, &mut buffers.tangents);
                    },
                    Channel::BlendIndex => {
                        read_bytes_or_zero(data, at, 4 * vertices, &mut buffers.blend_indices);
                    },
                    Channel::BlendWeight => {
                        read_bytes_or_zero(data, at, 4 * vertices, &mut buffers.blend_weights);
                    },
                    Channel::Color => {
                        read_bytes_or_zero(data, at, 4 * vertices, &mut buffers.colors);
                    },
                }
            }
        },
    }
    assert(buffers@ =~= old(buffers)@.followed_by(fed_attributes(data@, *header, i as int)));
    Ok(())
}

/// Reads every vertex array that `header` declares, in descriptor order.
pub fn read_vertex_arrays(data: &[u8], header: &Header) -> (r: Result<
    AttributeBuffers,
    FormatError,
>)
    ensures
        match r {
            Ok(buffers) => vertex_arrays_of(data@, *header) == Ok::<AttributeSeqs, FormatError>(
                buffers@,
            ),
            Err(e) => vertex_arrays_of(data@, *header) == Err::<AttributeSeqs, FormatError>(e),
        },
{
    let mut buffers = AttributeBuffers::new();
    let mut i: u32 = 0;
    assert(buffers@ =~= attributes_upto(data@, *header, 0));
    while i < header.vertex_array_count
        invariant
            i <= header.vertex_array_count,
            arrays_error(data@, *header, i as int) is None,
            buffers@ == attributes_upto(data@, *header, i as int),
        decreases header.vertex_array_count - i,
    {
        match read_vertex_array(data, header, i, &mut buffers) {
            Ok(_) => {},
            Err(e) => {
                proof {
                    lemma_arrays_error_stays(
                        data@,
                        *header,
                        i + 1,
                        header.vertex_array_count as int,
                    );
                }
                return Err(e);
            },
        }
        assert(buffers@ =~= attributes_upto(data@, *header, i + 1));
        i += 1;
    }
    Ok(buffers)
}

} // verus!
