//! The format tables a driver reads the descriptions with: components per
//! attribute, normalization, bytes per texel, values per uniform, and
//! vertices per draw.

use vstd::prelude::*;
use crate::renderer::attributes::{VertexFormat, UniformDataType};
use crate::renderer::texture::PixelFormat;
use crate::renderer::pipeline::{PrimitiveType, IndexType};

verus! {

/// Components of one attribute of the format.
pub open spec fn spec_elem_count(f: VertexFormat) -> u32 {
    match f {
        VertexFormat::Byte => 1,
        VertexFormat::Byte2 => 2,
        VertexFormat::Byte3 => 3,
        VertexFormat::Byte4 => 4,
        VertexFormat::SByte => 1,
        VertexFormat::SByte2 => 2,
        VertexFormat::SByte3 => 3,
        VertexFormat::SByte4 => 4,
        VertexFormat::Short => 1,
        VertexFormat::Short2 => 2,
        VertexFormat::Short3 => 3,
        VertexFormat::Short4 => 4,
        VertexFormat::Int => 1,
        VertexFormat::Int2 => 2,
        VertexFormat::Int3 => 3,
        VertexFormat::Int4 => 4,
        VertexFormat::UInt => 1,
        VertexFormat::UInt2 => 2,
        VertexFormat::UInt3 => 3,
        VertexFormat::UInt4 => 4,
        VertexFormat::Float => 1,
        VertexFormat::Float2 => 2,
        VertexFormat::Float3 => 3,
        VertexFormat::Float4 => 4,
        VertexFormat::Float2x2 => 4,
        VertexFormat::Float3x3 => 9,
        VertexFormat::Float4x4 => 16,
    }
}

/// Byte formats are normalized to `[0, 1]` (`[-1, 1]` when signed); other formats are not.
pub open spec fn spec_is_normalized(f: VertexFormat) -> bool {
    match f {
        VertexFormat::Byte => true,
        VertexFormat::Byte2 => true,
        VertexFormat::Byte3 => true,
        VertexFormat::Byte4 => true,
        VertexFormat::SByte => true,
        VertexFormat::SByte2 => true,
        VertexFormat::SByte3 => true,
        VertexFormat::SByte4 => true,
        VertexFormat::Short => false,
        VertexFormat::Short2 => false,
        VertexFormat::Short3 => false,
        VertexFormat::Short4 => false,
        VertexFormat::Int => false,
        VertexFormat::Int2 => false,
        VertexFormat::Int3 => false,
        VertexFormat::Int4 => false,
        VertexFormat::UInt => false,
        VertexFormat::UInt2 => false,
        VertexFormat::UInt3 => false,
        VertexFormat::UInt4 => false,
        VertexFormat::Float => false,
        VertexFormat::Float2 => false,
        VertexFormat::Float3 => false,
        VertexFormat::Float4 => false,
        VertexFormat::Float2x2 => false,
        VertexFormat::Float3x3 => false,
        VertexFormat::Float4x4 => false,
    }
}

/// Formats of 32-bit integer components, which reach the shader as integers.
pub open spec fn spec_is_integer(f: VertexFormat) -> bool {
    match f {
        VertexFormat::Byte => false,
        VertexFormat::Byte2 => false,
        VertexFormat::Byte3 => false,
        VertexFormat::Byte4 => false,
        VertexFormat::SByte => false,
        VertexFormat::SByte2 => false,
        VertexFormat::SByte3 => false,
        VertexFormat::SByte4 => false,
        VertexFormat::Short => false,
        VertexFormat::Short2 => false,
        VertexFormat::Short3 => false,
        VertexFormat::Short4 => false,
        VertexFormat::Int => true,
        VertexFormat::Int2 => true,
        VertexFormat::Int3 => true,
        VertexFormat::Int4 => true,
        VertexFormat::UInt => true,
        VertexFormat::UInt2 => true,
        VertexFormat::UInt3 => true,
        VertexFormat::UInt4 => true,
        VertexFormat::Float => false,
        VertexFormat::Float2 => false,
        VertexFormat::Float3 => false,
        VertexFormat::Float4 => false,
        VertexFormat::Float2x2 => false,
        VertexFormat::Float3x3 => false,
        VertexFormat::Float4x4 => false,
    }
}

/// Bytes per texel of a format.
pub open spec fn spec_pixel_size(p: PixelFormat) -> usize {
    match p {
        PixelFormat::RGB8U => 3,
        PixelFormat::RGBA8U => 4,
        PixelFormat::R8U => 1,
        PixelFormat::RGB32U => 12,
        PixelFormat::RGBA32U => 16,
        PixelFormat::R32U => 4,
        PixelFormat::RGB32F => 12,
        PixelFormat::RGBA32F => 16,
        PixelFormat::R32F => 4,
        PixelFormat::D16 => 2,
        PixelFormat::D32 => 4,
        PixelFormat::D24S8 => 4,
        PixelFormat::D32S8 => 5,
        PixelFormat::RGB8(_) => 3,
        PixelFormat::RGBA8(_) => 4,
        PixelFormat::R8(_) => 1,
    }
}

/// Scalar values in one uniform of the type.
pub open spec fn spec_component_count(u: UniformDataType) -> usize {
    match u {
        UniformDataType::UInt => 1,
        UniformDataType::UInt2 => 2,
        UniformDataType::UInt3 => 3,
        UniformDataType::UInt4 => 4,
        UniformDataType::Int => 1,
        UniformDataType::Int2 => 2,
        UniformDataType::Int3 => 3,
        UniformDataType::Int4 => 4,
        UniformDataType::Float => 1,
        UniformDataType::Float2 => 2,
        UniformDataType::Float3 => 3,
        UniformDataType::Float4 => 4,
        UniformDataType::Float2x2 => 4,
        UniformDataType::Float3x3 => 9,
        UniformDataType::Float4x4 => 16,
    }
}

/// Vertices drawn for `n` primitives.
pub open spec fn spec_element_count(p: PrimitiveType, n: int) -> int {
    match p {
        PrimitiveType::Lines => 2 * n,
        PrimitiveType::LineStrip => 1 + n,
        PrimitiveType::Points => n,
        PrimitiveType::Triangles => 3 * n,
        PrimitiveType::TriangleStrip => 2 + n,
    }
}

impl VertexFormat {
    pub fn gl_elem_count(&self) -> (r: u32)
        ensures
            r == spec_elem_count(*self),
    {
        match self {
            VertexFormat::Byte => 1,
            VertexFormat::Byte2 => 2,
            VertexFormat::Byte3 => 3,
            VertexFormat::Byte4 => 4,
            VertexFormat::SByte => 1,
            VertexFormat::SByte2 => 2,
            VertexFormat::SByte3 => 3,
            VertexFormat::SByte4 => 4,
            VertexFormat::Short => 1,
            VertexFormat::Short2 => 2,
            VertexFormat::Short3 => 3,
            VertexFormat::Short4 => 4,
            VertexFormat::Int => 1,
            VertexFormat::Int2 => 2,
            VertexFormat::Int3 => 3,
            VertexFormat::Int4 => 4,
            VertexFormat::UInt => 1,
            VertexFormat::UInt2 => 2,
            VertexFormat::UInt3 => 3,
            VertexFormat::UInt4 => 4,
            VertexFormat::Float => 1,
            VertexFormat::Float2 => 2,
            VertexFormat::Float3 => 3,
            VertexFormat::Float4 => 4,
            VertexFormat::Float2x2 => 4,
            VertexFormat::Float3x3 => 9,
            VertexFormat::Float4x4 => 16,
        }
    }

    pub fn gl_is_normalized(&self) -> (r: bool)
        ensures
            r == spec_is_normalized(*self),
    {
        match self {
            VertexFormat::Byte => true,
            VertexFormat::Byte2 => true,
            VertexFormat::Byte3 => true,
            VertexFormat::Byte4 => true,
            VertexFormat::SByte => true,
            VertexFormat::SByte2 => true,
            VertexFormat::SByte3 => true,
            VertexFormat::SByte4 => true,
            VertexFormat::Short => false,
            VertexFormat::Short2 => false,
            VertexFormat::Short3 => false,
            VertexFormat::Short4 => false,
            VertexFormat::Int => false,
            VertexFormat::Int2 => false,
            VertexFormat::Int3 => false,
            VertexFormat::Int4 => false,
            VertexFormat::UInt => false,
            VertexFormat::UInt2 => false,
            VertexFormat::UInt3 => false,
            VertexFormat::UInt4 => false,
            VertexFormat::Float => false,
            VertexFormat::Float2 => false,
            VertexFormat::Float3 => false,
            VertexFormat::Float4 => false,
            VertexFormat::Float2x2 => false,
            VertexFormat::Float3x3 => false,
            VertexFormat::Float4x4 => false,
        }
    }

    /// Whether the attribute reaches the shader as integers rather than as floats.
    pub fn is_integer(&self) -> (r: bool)
        ensures
            r == spec_is_integer(*self),
    {
        match self {
            VertexFormat::Byte => false,
            VertexFormat::Byte2 => false,
            VertexFormat::Byte3 => false,
            VertexFormat::Byte4 => false,
            VertexFormat::SByte => false,
            VertexFormat::SByte2 => false,
            VertexFormat::SByte3 => false,
            VertexFormat::SByte4 => false,
            VertexFormat::Short => false,
            VertexFormat::Short2 => false,
            VertexFormat::Short3 => false,
            VertexFormat::Short4 => false,
            VertexFormat::Int => true,
            VertexFormat::Int2 => true,
            VertexFormat::Int3 => true,
            VertexFormat::Int4 => true,
            VertexFormat::UInt => true,
            VertexFormat::UInt2 => true,
            VertexFormat::UInt3 => true,
            VertexFormat::UInt4 => true,
            VertexFormat::Float => false,
            VertexFormat::Float2 => false,
            VertexFormat::Float3 => false,
            VertexFormat::Float4 => false,
            VertexFormat::Float2x2 => false,
            VertexFormat::Float3x3 => false,
            VertexFormat::Float4x4 => false,
        }
    }
}

impl PixelFormat {
    pub fn gl_pixel_size(&self) -> (r: usize)
        ensures
            r == spec_pixel_size(*self),
    {
        match self {
            PixelFormat::RGB8U => 3,
            PixelFormat::RGBA8U => 4,
            PixelFormat::R8U => 1,
            PixelFormat::RGB32U => 12,
            PixelFormat::RGBA32U => 16,
            PixelFormat::R32U => 4,
            PixelFormat::RGB32F => 12,
            PixelFormat::RGBA32F => 16,
            PixelFormat::R32F => 4,
            PixelFormat::D16 => 2,
            PixelFormat::D32 => 4,
            PixelFormat::D24S8 => 4,
            PixelFormat::D32S8 => 5,
            PixelFormat::RGB8(_) => 3,
            PixelFormat::RGBA8(_) => 4,
            PixelFormat::R8(_) => 1,
        }
    }
}

impl UniformDataType {
    /// Scalar values the driver reads for one uniform of this type.
    pub fn component_count(&self) -> (r: usize)
        ensures
            r == spec_component_count(*self),
    {
        match self {
            UniformDataType::UInt => 1,
            UniformDataType::UInt2 => 2,
            UniformDataType::UInt3 => 3,
            UniformDataType::UInt4 => 4,
            UniformDataType::Int => 1,
            UniformDataType::Int2 => 2,
            UniformDataType::Int3 => 3,
            UniformDataType::Int4 => 4,
            UniformDataType::Float => 1,
            UniformDataType::Float2 => 2,
            UniformDataType::Float3 => 3,
            UniformDataType::Float4 => 4,
            UniformDataType::Float2x2 => 4,
            UniformDataType::Float3x3 => 9,
            UniformDataType::Float4x4 => 16,
        }
    }
}

impl PrimitiveType {
    /// Vertices a draw of `prim_count` primitives of this type reads.
    pub fn element_count(&self, prim_count: u32) -> (r: u32)
        requires
            spec_element_count(*self, prim_count as int) <= u32::MAX,
        ensures
            r == spec_element_count(*self, prim_count as int),
    {
        match self {
            PrimitiveType::Lines => 2 * prim_count,
            PrimitiveType::LineStrip => 1 + prim_count,
            PrimitiveType::Points => prim_count,
            PrimitiveType::Triangles => 3 * prim_count,
            PrimitiveType::TriangleStrip => 2 + prim_count,
        }
    }
}

/// A format is normalized or integer, never both.
pub proof fn lemma_normalized_not_integer(f: VertexFormat)
    ensures
        !(spec_is_normalized(f) && spec_is_integer(f)),
{
}


/// How a draw is issued: indexed with 16-bit or 32-bit indices, or straight
/// from the vertex arrays.
#[derive(Clone, Copy, Debug, PartialEq, Eq, Structural)]
pub enum DrawCall {
    Indexed16,
    Indexed32,
    Arrays,
}

/// Why a draw cannot be issued.
#[derive(Clone, Copy, Debug, PartialEq, Eq, Structural)]
pub enum DrawError {
    /// The vertex count does not fit a `u32`.
    TooManyVertices,
    /// An index buffer is bound to a pipeline without an index type.
    IndexBufferWithoutIndexType,
    /// The pipeline has an index type but no index buffer is bound.
    IndexTypeWithoutIndexBuffer,
}

/// The draw of `prim_count` primitives of type `prim`, with the pipeline's
/// index type `index` and an index buffer bound or not: first the vertex
/// count must fit, then an index buffer goes with an index type and none
/// without; the call and the vertex count it reads.
pub open spec fn spec_draw_plan(prim: PrimitiveType, index: IndexType, has_index_buffer: bool, prim_count: u32) -> Result<(DrawCall, u32), DrawError> {
    let count = spec_element_count(prim, prim_count as int);
    if count > u32::MAX {
        Err(DrawError::TooManyVertices)
    } else if has_index_buffer {
        match index {
            IndexType::NoIndex => Err(DrawError::IndexBufferWithoutIndexType),
            IndexType::UInt16 => Ok((DrawCall::Indexed16, count as u32)),
            IndexType::UInt32 => Ok((DrawCall::Indexed32, count as u32)),
        }
    } else if index != IndexType::NoIndex {
        Err(DrawError::IndexTypeWithoutIndexBuffer)
    } else {
        Ok((DrawCall::Arrays, count as u32))
    }
}

/// Plans a draw, as `spec_draw_plan` says.
pub fn draw_plan(prim: PrimitiveType, index: IndexType, has_index_buffer: bool, prim_count: u32) -> (r: Result<(DrawCall, u32), DrawError>)
    ensures
        r == spec_draw_plan(prim, index, has_index_buffer, prim_count),
{
    let fits = match prim {
        PrimitiveType::Lines => prim_count <= u32::MAX / 2,
        PrimitiveType::LineStrip => prim_count < u32::MAX,
        PrimitiveType::Points => true,
        PrimitiveType::Triangles => prim_count <= u32::MAX / 3,
        PrimitiveType::TriangleStrip => prim_count <= u32::MAX - 2,
    };
    if !fits {
        return Err(DrawError::TooManyVertices);
    }
    let count = prim.element_count(prim_count);
    if has_index_buffer {
        match index {
            IndexType::NoIndex => Err(DrawError::IndexBufferWithoutIndexType),
            IndexType::UInt16 => Ok((DrawCall::Indexed16, count)),
            IndexType::UInt32 => Ok((DrawCall::Indexed32, count)),
        }
    } else if index != IndexType::NoIndex {
        Err(DrawError::IndexTypeWithoutIndexBuffer)
    } else {
        Ok((DrawCall::Arrays, count))
    }
}

} // verus!
