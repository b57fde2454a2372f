//! Shaders, pipelines, passes and driver capabilities.

use vstd::prelude::*;
use crate::geometry::{Color4b, Dimensioni};
use crate::renderer::attributes::VertexAttributeDesc;

verus! {

/// The sources of a shader program and the names of its inputs: vertex
/// attributes per vertex buffer, uniforms and textures of each stage.
#[derive(Clone)]
pub struct ShaderDesc {
    pub vertex_shader: String,
    pub pixel_shader: String,
    pub vertex_attributes: Vec<Vec<String>>,
    pub vertex_uniforms: Vec<String>,
    pub vertex_surfaces: Vec<String>,
    pub pixel_uniforms: Vec<String>,
    pub pixel_surfaces: Vec<String>,
}

/// The type of the indices of an index buffer, if the pipeline draws indexed.
#[derive(Clone, Copy, Debug, PartialEq, Eq, Structural)]
pub enum IndexType {
    NoIndex,
    UInt16,
    UInt32,
}

/// A type that can be an index of an index buffer.
pub trait IndexTypeTrait {
    fn to_index_type() -> IndexType;
}

impl IndexTypeTrait for u16 {
    fn to_index_type() -> (r: IndexType)
        ensures
            r == IndexType::UInt16,
    {
        IndexType::UInt16
    }
}

impl IndexTypeTrait for u32 {
    fn to_index_type() -> (r: IndexType)
        ensures
            r == IndexType::UInt32,
    {
        IndexType::UInt32
    }
}

/// The primitives a pipeline draws.
#[derive(Clone, Copy, Debug, PartialEq, Eq, Structural)]
pub enum PrimitiveType {
    Points,
    Lines,
    LineStrip,
    Triangles,
    TriangleStrip,
}

/// Whether faces are culled by their winding.
#[derive(Clone, Copy, Debug, PartialEq, Eq, Structural)]
pub enum CullMode {
    Winding,
    NoCull,
}

/// The winding of front faces.
#[derive(Clone, Copy, Debug, PartialEq, Eq, Structural)]
pub enum FaceWinding {
    CCW,
    CW,
}

/// The layout of one vertex buffer: which buffer, its attributes, the bytes
/// between two vertices, and the instance divisor.
#[derive(Clone)]
pub struct VertexBufferLayout {
    pub buffer_id: usize,
    pub vertex_attributes: Vec<VertexAttributeDesc>,
    pub stride: usize,
    pub divisor: usize,
}

/// A blending factor.
#[derive(Clone, Copy, Debug, PartialEq, Eq, Structural)]
pub enum BlendFactor {
    Zero,
    One,
    SrcColor,
    OneMinusSrcColor,
    SrcAlpha,
    OneMinusSrcAlpha,
    DstColor,
    OneMinusDstColor,
    DstAlpha,
    OneMinusDstAlpha,
    SrcAlphaSaturate,
    ConstantColor,
    OneMinusConstantColor,
    ConstantAlpha,
    OneMinusConstantAlpha,
}

/// The source and destination factors for color and for alpha.
#[derive(Clone, Copy, Debug, PartialEq, Eq, Structural)]
pub struct Blend {
    pub src_factor_rgb: BlendFactor,
    pub src_factor_alpha: BlendFactor,
    pub dst_factor_rgb: BlendFactor,
    pub dst_factor_alpha: BlendFactor,
}

impl Blend {
    /// Premultiplied-alpha blending: source times one, destination times one minus source alpha.
    pub fn default() -> (r: Self)
        ensures
            r == (Blend {
                src_factor_rgb: BlendFactor::One,
                src_factor_alpha: BlendFactor::One,
                dst_factor_rgb: BlendFactor::OneMinusSrcAlpha,
                dst_factor_alpha: BlendFactor::OneMinusSrcAlpha,
            }),
    {
        Self {
            src_factor_rgb: BlendFactor::One,
            src_factor_alpha: BlendFactor::One,
            dst_factor_rgb: BlendFactor::OneMinusSrcAlpha,
            dst_factor_alpha: BlendFactor::OneMinusSrcAlpha,
        }
    }
}

/// The blend equation of a pipeline, if it blends.
#[derive(Clone, Copy, Debug, PartialEq, Eq, Structural)]
pub enum BlendOp {
    NoBlend,
    Add(Blend),
    Subtract(Blend),
    ReverseSubtract(Blend),
}

/// What a pass does with a color attachment when it starts.
#[derive(Clone, Copy, Debug, PartialEq, Eq, Structural)]
pub enum ColorPassAction {
    Clear(Color4b),
    Previous,
}

/// Why a surface could not be read back.
#[derive(Clone, Copy, Debug, PartialEq, Eq, Structural)]
pub enum ReadbackError {
    NoReadbackFromRenderTarget,
    RectOutOfBound,
}

/// What a driver supports.
#[derive(Clone, Copy, Debug, PartialEq, Eq, Structural)]
pub struct DriverCaps {
    pub max_2d_surface_dimension: Dimensioni,
}

} // verus!
