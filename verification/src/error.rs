//! Error taxonomy of the decoder and the small enumerations it refers to.

use vstd::prelude::*;

verus! {

/// Scalar format tag of 8-bit unsigned integers.
pub const FORMAT_UBYTE: u32 = 1;

/// Scalar format tag of 32-bit IEEE-754 numbers.
pub const FORMAT_FLOAT: u32 = 7;

/// One vertex attribute channel that a vertex-array descriptor can declare.
#[derive(Clone, Copy, Debug, PartialEq, Eq, Structural)]
pub enum Channel {
    Position,
    TexCoord,
    Normal,
    Tangent,
    BlendIndex,
    BlendWeight,
    Color,
}

/// Storage layout of one channel: the scalar format tag and the number of
/// scalars per vertex.
#[derive(Clone, Copy, Debug, PartialEq, Eq, Structural)]
pub struct Layout {
    pub format: u32,
    pub components: u32,
}

/// Why a buffer could not be decoded.
#[derive(Clone, Copy, Debug, PartialEq, Eq, Structural)]
pub enum FormatError {
    /// The first sixteen bytes are not the format's signature.
    BadMagic,
    /// The version field holds something other than the supported version.
    UnsupportedVersion,
    /// A required channel is declared with a layout other than the one the
    /// decoder reads.
    UnexpectedLayout { channel: Channel, expected: Layout, found: Layout },
    /// A read ran past the end of the buffer.
    TruncatedInput,
    /// A submesh refers to a triangle index outside its own vertex window.
    IndexOutOfRange,
}

impl Channel {
    /// The channel that a descriptor's type tag names, if any.
    pub open spec fn of_tag(tag: u32) -> Option<Channel> {
        if tag == 0 {
            Some(Channel::Position)
        } else if tag == 1 {
            Some(Channel::TexCoord)
        } else if tag == 2 {
            Some(Channel::Normal)
        } else if tag == 3 {
            Some(Channel::Tangent)
        } else if tag == 4 {
            Some(Channel::BlendIndex)
        } else if tag == 5 {
            Some(Channel::BlendWeight)
        } else if tag == 6 {
            Some(Channel::Color)
        } else {
            None
        }
    }

    /// The type tag under which the file declares this channel.
    pub open spec fn tag_of(self) -> u32 {
        match self {
            Channel::Position => 0,
            Channel::TexCoord => 1,
            Channel::Normal => 2,
            Channel::Tangent => 3,
            Channel::BlendIndex => 4,
            Channel::BlendWeight => 5,
            Channel::Color => 6,
        }
    }

    /// Whether the channel holds 32-bit scalars (as opposed to bytes).
    pub open spec fn is_wide(self) -> bool {
        self is Position || self is TexCoord || self is Normal || self is Tangent
    }

    /// Scalars per vertex in this channel.
    pub open spec fn arity(self) -> u32 {
        match self {
            Channel::Position => 3,
            Channel::TexCoord => 2,
            Channel::Normal => 3,
            _ => 4,
        }
    }

    /// The only layout in which the decoder reads this channel.
    pub open spec fn expected_layout(self) -> Layout {
        Layout {
            format: if self.is_wide() {
                FORMAT_FLOAT
            } else {
                FORMAT_UBYTE
            },
            components: self.arity(),
        }
    }

    /// The decoder insists on a required channel: a layout other than the
    /// expected one, or data that the buffer does not hold in full, is an
    /// error. Every other channel is optional: a declaration with another
    /// layout is passed over, and data past the end of the buffer reads as
    /// zero.
    pub open spec fn is_required(self) -> bool {
        self is Position
    }

    /// The channel that a descriptor's type tag names, if any.
    #[verifier::when_used_as_spec(of_tag)]
    pub fn from_tag(tag: u32) -> (channel: Option<Channel>)
        ensures
            channel == Channel::of_tag(tag),
    {
        if tag == 0 {
            Some(Channel::Position)
        } else if tag == 1 {
            Some(Channel::TexCoord)
        } else if tag == 2 {
            Some(Channel::Normal)
        } else if tag == 3 {
            Some(Channel::Tangent)
        } else if tag == 4 {
            Some(Channel::BlendIndex)
        } else if tag == 5 {
            Some(Channel::BlendWeight)
        } else if tag == 6 {
            Some(Channel::Color)
        } else {
            None
        }
    }

    /// The type tag under which the file declares this channel.
    #[verifier::when_used_as_spec(tag_of)]
    pub fn tag(self) -> (tag: u32)
        ensures
            tag == self.tag_of(),
    {
        match self {
            Channel::Position => 0,
            Channel::TexCoord => 1,
            Channel::Normal => 2,
            Channel::Tangent => 3,
            Channel::BlendIndex => 4,
            Channel::BlendWeight => 5,
            Channel::Color => 6,
        }
    }

    /// The only layout in which the decoder reads this channel.
    #[verifier::when_used_as_spec(expected_layout)]
    pub fn layout(self) -> (layout: Layout)
        ensures
            layout == self.expected_layout(),
    {
        match self {
            Channel::Position => Layout { format: FORMAT_FLOAT, components: 3 },
            Channel::TexCoord => Layout { format: FORMAT_FLOAT, components: 2 },
            Channel::Normal => Layout { format: FORMAT_FLOAT, components: 3 },
            Channel::Tangent => Layout { format: FORMAT_FLOAT, components: 4 },
            Channel::BlendIndex => Layout { format: FORMAT_UBYTE, components: 4 },
            Channel::BlendWeight => Layout { format: FORMAT_UBYTE, components: 4 },
            Channel::Color => Layout { format: FORMAT_UBYTE, components: 4 },
        }
    }
}

/// A tag names a channel exactly when it is that channel's own tag.
pub proof fn lemma_tag_round_trip(channel: Channel, tag: u32)
    ensures
        Channel::of_tag(channel.tag_of()) == Some(channel),
        Channel::of_tag(tag) == Some(channel) <==> tag == channel.tag_of(),
{
}

} // verus!
