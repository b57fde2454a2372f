//! Vertex attribute and uniform descriptions.

use vstd::prelude::*;

verus! {

/// Declares rs_math3d's `Vector2` to the verifier, as an opaque type, so
/// that the attribute and uniform types below can name it.
#[verifier::external_type_specification]
#[verifier::external_body]
#[verifier::reject_recursive_types(T)]
pub struct ExVector2<T>(rs_math3d::Vector2<T>);

/// Declares rs_math3d's `Vector3` to the verifier, as an opaque type.
#[verifier::external_type_specification]
#[verifier::external_body]
#[verifier::reject_recursive_types(T)]
pub struct ExVector3<T>(rs_math3d::Vector3<T>);

/// Declares rs_math3d's `Vector4` to the verifier, as an opaque type.
#[verifier::external_type_specification]
#[verifier::external_body]
#[verifier::reject_recursive_types(T)]
pub struct ExVector4<T>(rs_math3d::Vector4<T>);

/// The type of one vertex attribute: a scalar or a vector of 2 to 4 of one
/// component type, or a square float matrix.
#[derive(Clone, Copy, Debug, PartialEq, Eq, Structural)]
pub enum VertexFormat {
    Byte,
    Byte2,
    Byte3,
    Byte4,
    SByte,
    SByte2,
    SByte3,
    SByte4,
    Short,
    Short2,
    Short3,
    Short4,
    Int,
    Int2,
    Int3,
    Int4,
    UInt,
    UInt2,
    UInt3,
    UInt4,
    Float,
    Float2,
    Float3,
    Float4,
    Float2x2,
    Float3x3,
    Float4x4,
}

/// A type that can be the type of a vertex attribute.
pub trait AttributeDataTypeGetter {
    fn get_attribute_type() -> VertexFormat;
}

impl AttributeDataTypeGetter for i8 {
    fn get_attribute_type() -> (r: VertexFormat)
        ensures
            r == VertexFormat::SByte,
    {
        VertexFormat::SByte
    }
}

impl AttributeDataTypeGetter for rs_math3d::Vector2<i8> {
    fn get_attribute_type() -> (r: VertexFormat)
        ensures
            r == VertexFormat::SByte2,
    {
        VertexFormat::SByte2
    }
}

impl AttributeDataTypeGetter for rs_math3d::Vector3<i8> {
    fn get_attribute_type() -> (r: VertexFormat)
        ensures
            r == VertexFormat::SByte3,
    {
        VertexFormat::SByte3
    }
}

impl AttributeDataTypeGetter for rs_math3d::Vector4<i8> {
    fn get_attribute_type() -> (r: VertexFormat)
        ensures
            r == VertexFormat::SByte4,
    {
        VertexFormat::SByte4
    }
}

impl AttributeDataTypeGetter for u8 {
    fn get_attribute_type() -> (r: VertexFormat)
        ensures
            r == VertexFormat::Byte,
    {
        VertexFormat::Byte
    }
}

impl AttributeDataTypeGetter for rs_math3d::Vector2<u8> {
    fn get_attribute_type() -> (r: VertexFormat)
        ensures
            r == VertexFormat::Byte2,
    {
        VertexFormat::Byte2
    }
}

impl AttributeDataTypeGetter for rs_math3d::Vector3<u8> {
    fn get_attribute_type() -> (r: VertexFormat)
        ensures
            r == VertexFormat::Byte3,
    {
        VertexFormat::Byte3
    }
}

impl AttributeDataTypeGetter for rs_math3d::Vector4<u8> {
    fn get_attribute_type() -> (r: VertexFormat)
        ensures
            r == VertexFormat::Byte4,
    {
        VertexFormat::Byte4
    }
}

impl AttributeDataTypeGetter for i16 {
    fn get_attribute_type() -> (r: VertexFormat)
        ensures
            r == VertexFormat::Short,
    {
        VertexFormat::Short
    }
}

impl AttributeDataTypeGetter for rs_math3d::Vector2<i16> {
    fn get_attribute_type() -> (r: VertexFormat)
        ensures
            r == VertexFormat::Short2,
    {
        VertexFormat::Short2
    }
}

impl AttributeDataTypeGetter for rs_math3d::Vector3<i16> {
    fn get_attribute_type() -> (r: VertexFormat)
        ensures
            r == VertexFormat::Short3,
    {
        VertexFormat::Short3
    }
}

impl AttributeDataTypeGetter for rs_math3d::Vector4<i16> {
    fn get_attribute_type() -> (r: VertexFormat)
        ensures
            r == VertexFormat::Short4,
    {
        VertexFormat::Short4
    }
}

impl AttributeDataTypeGetter for i32 {
    fn get_attribute_type() -> (r: VertexFormat)
        ensures
            r == VertexFormat::Int,
    {
        VertexFormat::Int
    }
}

impl AttributeDataTypeGetter for rs_math3d::Vector2<i32> {
    fn get_attribute_type() -> (r: VertexFormat)
        ensures
            r == VertexFormat::Int2,
    {
        VertexFormat::Int2
    }
}

impl AttributeDataTypeGetter for rs_math3d::Vector3<i32> {
    fn get_attribute_type() -> (r: VertexFormat)
        ensures
            r == VertexFormat::Int3,
    {
        VertexFormat::Int3
    }
}

impl AttributeDataTypeGetter for rs_math3d::Vector4<i32> {
    fn get_attribute_type() -> (r: VertexFormat)
        ensures
            r == VertexFormat::Int4,
    {
        VertexFormat::Int4
    }
}

impl AttributeDataTypeGetter for u32 {
    fn get_attribute_type() -> (r: VertexFormat)
        ensures
            r == VertexFormat::UInt,
    {
        VertexFormat::UInt
    }
}

impl AttributeDataTypeGetter for rs_math3d::Vector2<u32> {
    fn get_attribute_type() -> (r: VertexFormat)
        ensures
            r == VertexFormat::UInt2,
    {
        VertexFormat::UInt2
    }
}

impl AttributeDataTypeGetter for rs_math3d::Vector3<u32> {
    fn get_attribute_type() -> (r: VertexFormat)
        ensures
            r == VertexFormat::UInt3,
    {
        VertexFormat::UInt3
    }
}

impl AttributeDataTypeGetter for rs_math3d::Vector4<u32> {
    fn get_attribute_type() -> (r: VertexFormat)
        ensures
            r == VertexFormat::UInt4,
    {
        VertexFormat::UInt4
    }
}

/// The description of one vertex attribute: its name in the shader, its
/// type, and its byte offset in the vertex.
#[derive(Clone)]
pub struct VertexAttributeDesc {
    name: String,
    format: VertexFormat,
    offset: usize,
}

impl VertexAttributeDesc {
    pub closed spec fn name_spec(&self) -> Seq<char> {
        self.name@
    }

    pub closed spec fn format_spec(&self) -> VertexFormat {
        self.format
    }

    pub closed spec fn offset_spec(&self) -> usize {
        self.offset
    }

    pub fn new(name: String, format: VertexFormat, offset: usize) -> (r: Self)
        ensures
            r.name_spec() == name@,
            r.format_spec() == format,
            r.offset_spec() == offset,
    {
        Self { name: name, format: format, offset: offset }
    }

    pub fn name(&self) -> (r: &String)
        ensures
            r@ == self.name_spec(),
    {
        &self.name
    }

    pub fn format(&self) -> (r: VertexFormat)
        ensures
            r == self.format_spec(),
    {
        self.format
    }

    pub fn offset(&self) -> (r: usize)
        ensures
            r == self.offset_spec(),
    {
        self.offset
    }
}

/// A vertex type: the attributes it is made of, their names, and its size.
pub trait VertexTrait {
    fn get_attribute_descriptors() -> Vec<VertexAttributeDesc>;

    fn get_attribute_names() -> Vec<String>;

    fn stride() -> usize;
}

/// The type of a uniform: a scalar or vector of 2 to 4 of one component
/// type, or a square float matrix.
#[derive(Clone, Copy, Debug, PartialEq, Eq, Structural)]
pub enum UniformDataType {
    UInt,
    UInt2,
    UInt3,
    UInt4,
    Int,
    Int2,
    Int3,
    Int4,
    Float,
    Float2,
    Float3,
    Float4,
    Float2x2,
    Float3x3,
    Float4x4,
}

/// A type that can be the type of a uniform.
pub trait UniformDataTypeGetter {
    fn get_uniform_type() -> UniformDataType;
}

impl UniformDataTypeGetter for u32 {
    fn get_uniform_type() -> (r: UniformDataType)
        ensures
            r == UniformDataType::UInt,
    {
        UniformDataType::UInt
    }
}

impl UniformDataTypeGetter for rs_math3d::Vector2<u32> {
    fn get_uniform_type() -> (r: UniformDataType)
        ensures
            r == UniformDataType::UInt2,
    {
        UniformDataType::UInt2
    }
}

impl UniformDataTypeGetter for rs_math3d::Vector3<u32> {
    fn get_uniform_type() -> (r: UniformDataType)
        ensures
            r == UniformDataType::UInt3,
    {
        UniformDataType::UInt3
    }
}

impl UniformDataTypeGetter for rs_math3d::Vector4<u32> {
    fn get_uniform_type() -> (r: UniformDataType)
        ensures
            r == UniformDataType::UInt4,
    {
        UniformDataType::UInt4
    }
}

impl UniformDataTypeGetter for i32 {
    fn get_uniform_type() -> (r: UniformDataType)
        ensures
            r == UniformDataType::Int,
    {
        UniformDataType::Int
    }
}

impl UniformDataTypeGetter for rs_math3d::Vector2<i32> {
    fn get_uniform_type() -> (r: UniformDataType)
        ensures
            r == UniformDataType::Int2,
    {
        UniformDataType::Int2
    }
}

impl UniformDataTypeGetter for rs_math3d::Vector3<i32> {
    fn get_uniform_type() -> (r: UniformDataType)
        ensures
            r == UniformDataType::Int3,
    {
        UniformDataType::Int3
    }
}

impl UniformDataTypeGetter for rs_math3d::Vector4<i32> {
    fn get_uniform_type() -> (r: UniformDataType)
        ensures
            r == UniformDataType::Int4,
    {
        UniformDataType::Int4
    }
}

/// The description of a uniform: its name, type and array length.
#[derive(Clone)]
pub struct UniformDesc {
    name: String,
    format: UniformDataType,
    count: usize,
}

impl UniformDesc {
    pub closed spec fn name_spec(&self) -> Seq<char> {
        self.name@
    }

    pub closed spec fn format_spec(&self) -> UniformDataType {
        self.format
    }

    pub closed spec fn count_spec(&self) -> usize {
        self.count
    }

    pub fn new(name: String, format: UniformDataType, count: usize) -> (r: Self)
        ensures
            r.name_spec() == name@,
            r.format_spec() == format,
            r.count_spec() == count,
    {
        Self { name: name, format: format, count: count }
    }

    pub fn name(&self) -> (r: &str)
        ensures
            r@ == self.name_spec(),
    {
        self.name.as_str()
    }

    pub fn format(&self) -> (r: UniformDataType)
        ensures
            r == self.format_spec(),
    {
        self.format
    }

    pub fn count(&self) -> (r: usize)
        ensures
            r == self.count_spec(),
    {
        self.count
    }
}

/// A uniform and its byte offset in the uniform block.
#[derive(Clone)]
pub struct UniformDataDesc {
    pub desc: UniformDesc,
    pub offset: usize,
}

impl UniformDataDesc {
    pub fn new(name: String, format: UniformDataType, count: usize, offset: usize) -> (r: Self)
        ensures
            r.desc.name_spec() == name@,
            r.desc.format_spec() == format,
            r.desc.count_spec() == count,
            r.offset == offset,
    {
        Self { desc: UniformDesc::new(name, format, count), offset: offset }
    }

    pub fn offset(&self) -> (r: usize)
        ensures
            r == self.offset,
    {
        self.offset
    }

    pub fn desc(&self) -> (r: &UniformDesc)
        ensures
            *r == self.desc,
    {
        &self.desc
    }
}

/// A uniform block type: the uniforms it is made of and their names.
pub trait UniformBlockTrait {
    fn get_uniform_descriptors() -> Vec<UniformDataDesc>;

    fn get_uniform_names() -> Vec<String>;
}

} // verus!
