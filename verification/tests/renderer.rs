use neocogi::geometry::Color4b;
use neocogi::renderer::attributes::{
    AttributeDataTypeGetter, UniformDataDesc, UniformDataType, UniformDataTypeGetter, UniformDesc,
    VertexAttributeDesc, VertexFormat,
};
use neocogi::renderer::batch::{chunk_ranges, QuadBatch};
use neocogi::renderer::buffer::{DeviceBufferDesc, GenPayload, Payload, Usage};
use neocogi::renderer::pipeline::{Blend, BlendFactor, IndexType, IndexTypeTrait, PrimitiveType};
use neocogi::renderer::formats::{draw_plan, DrawCall, DrawError};
use neocogi::renderer::resources::ResourceContainer;
use neocogi::renderer::texture::{
    Filter, MinMagFilter, OrigSurfaceClass, OrigSurfaceType, PixelChannel, PixelFormat, SamplerDesc, SamplerType,
    WrapMode,
};
use neocogi::scene::{NavigationMode, Quad, Segment, Triangle, UMNode};

#[test]
fn attribute_and_uniform_descriptions() {
    let a = VertexAttributeDesc::new(String::from("a_pos"), VertexFormat::Float2, 8);
    assert_eq!(a.name(), "a_pos");
    assert_eq!(a.format(), VertexFormat::Float2);
    assert_eq!(a.offset(), 8);
    let u = UniformDesc::new(String::from("pvm"), UniformDataType::Float4x4, 1);
    assert_eq!(u.name(), "pvm");
    assert_eq!(u.format(), UniformDataType::Float4x4);
    assert_eq!(u.count(), 1);
    let d = UniformDataDesc::new(String::from("pvm"), UniformDataType::Float4x4, 1, 64);
    assert_eq!(d.offset(), 64);
    assert_eq!(d.desc().name(), "pvm");
}

#[test]
fn attribute_types_of_rust_types() {
    assert_eq!(<i8 as AttributeDataTypeGetter>::get_attribute_type(), VertexFormat::SByte);
    assert_eq!(<u8 as AttributeDataTypeGetter>::get_attribute_type(), VertexFormat::Byte);
    assert_eq!(<rs_math3d::Vector4<u8> as AttributeDataTypeGetter>::get_attribute_type(), VertexFormat::Byte4);
    assert_eq!(<u32 as UniformDataTypeGetter>::get_uniform_type(), UniformDataType::UInt);
    assert_eq!(<u16 as IndexTypeTrait>::to_index_type(), IndexType::UInt16);
    assert_eq!(<u32 as IndexTypeTrait>::to_index_type(), IndexType::UInt32);
}

#[test]
fn vertex_format_tables() {
    assert_eq!(VertexFormat::Float3x3.gl_elem_count(), 9);
    assert_eq!(VertexFormat::Byte4.gl_elem_count(), 4);
    assert!(VertexFormat::SByte2.gl_is_normalized());
    assert!(!VertexFormat::Int.gl_is_normalized());
    assert!(VertexFormat::Int.is_integer());
    assert!(!VertexFormat::Byte.is_integer());
    assert!(!VertexFormat::Float.is_integer());
}

#[test]
fn normalized_formats_are_not_integer() {
    for f in [VertexFormat::Byte, VertexFormat::SByte4, VertexFormat::UInt2, VertexFormat::Short3, VertexFormat::Float4x4] {
        assert!(!(f.gl_is_normalized() && f.is_integer()));
    }
}

#[test]
fn pixel_and_uniform_sizes() {
    assert_eq!(PixelFormat::RGBA32F.gl_pixel_size(), 16);
    assert_eq!(PixelFormat::D32S8.gl_pixel_size(), 5);
    assert_eq!(PixelFormat::R8(MinMagFilter::default()).gl_pixel_size(), 1);
    assert_eq!(UniformDataType::Float3x3.component_count(), 9);
    assert_eq!(PrimitiveType::Triangles.element_count(5), 15);
    assert_eq!(PrimitiveType::LineStrip.element_count(5), 6);
    assert_eq!(PrimitiveType::TriangleStrip.element_count(5), 7);
}

#[test]
fn surface_types_and_classes() {
    assert_eq!(PixelFormat::RGBA8U.to_orig_surface_type(), OrigSurfaceType::UInt);
    assert_eq!(PixelFormat::D16.to_orig_surface_type(), OrigSurfaceType::Float);
    assert_eq!(PixelFormat::D24S8.surface_class(), OrigSurfaceClass::Depth);
    assert_eq!(PixelFormat::R32F.surface_class(), OrigSurfaceClass::Color);
}

#[test]
fn buffer_sizes() {
    let v: Vec<u32> = vec![1, 2, 3];
    assert_eq!(v.size(), 12);
    assert_eq!(GenPayload::from(7u64).size(), 8);
    let u = Usage::new_dynamic::<u32>(10);
    assert_eq!(u.size(), 40);
    assert!(matches!(Usage::new_streamed::<u16>(3), Usage::Dynamic(6)));
    assert_eq!(Usage::Static(vec![0u8; 5]).size(), 5);
    assert_eq!(DeviceBufferDesc::Index(Usage::Streamed(9)).size(), 9);
}

#[test]
fn sampler_builders_keep_the_extent() {
    let d = SamplerDesc::default(64, 32)
        .with_wrap_mode(WrapMode::ClampToEdge)
        .with_pixel_format(PixelFormat::R32F)
        .with_mip_maps(3);
    assert_eq!(d.width(), 64);
    assert_eq!(d.height(), 32);
    assert_eq!(d.mip_maps, 3);
    assert_eq!(d.pixel_format, PixelFormat::R32F);
    assert_eq!(
        d.image_type,
        SamplerType::Sampler2D(
            PixelChannel { size: 64, wrap: WrapMode::ClampToEdge },
            PixelChannel { size: 32, wrap: WrapMode::ClampToEdge }
        )
    );
    assert_eq!(PixelChannel::default(4).resize(8).with_wrap(WrapMode::MirroredRepeat), PixelChannel {
        size: 8,
        wrap: WrapMode::MirroredRepeat
    });
    let f = MinMagFilter::default().with_min_filter(Filter::Nearest).with_mag_filter(Filter::Linear);
    assert_eq!(f.min_filter, Filter::Nearest);
    assert_eq!(f.mag_filter, Filter::Linear);
}

#[test]
fn default_blend_is_premultiplied() {
    let b = Blend::default();
    assert_eq!(b.src_factor_rgb, BlendFactor::One);
    assert_eq!(b.dst_factor_alpha, BlendFactor::OneMinusSrcAlpha);
}

#[test]
fn resource_slots_are_reused_oldest_first() {
    let mut c: ResourceContainer<&str> = ResourceContainer::new();
    assert_eq!(c.add("a"), 0);
    assert_eq!(c.add("b"), 1);
    assert_eq!(c.add("c"), 2);
    c.remove(1);
    c.remove(0);
    assert_eq!(c.add("d"), 1);
    assert_eq!(c.add("e"), 0);
    assert_eq!(c.add("f"), 3);
    assert_eq!(*c.index(1), "d");
    assert_eq!(*c.index(0), "e");
    assert_eq!(*c.index(2), "c");
}

#[test]
fn remove_then_add_reuses_the_slot() {
    let mut c: ResourceContainer<u32> = ResourceContainer::new();
    c.add(10);
    c.add(20);
    c.remove(0);
    assert_eq!(c.add(30), 0);
    assert_eq!(*c.index(0), 30);
    assert_eq!(c.add(40), 2);
}

#[test]
fn quad_batch_indices() {
    let mut b: QuadBatch<u8> = QuadBatch::new();
    assert!(!b.needs_flush());
    b.push_quad(&1, &2, &3, &4);
    b.push_quad(&5, &6, &7, &8);
    assert_eq!(b.vertices(), &vec![1u8, 2, 3, 4, 5, 6, 7, 8]);
    assert_eq!(b.indices(), &vec![0u16, 1, 2, 2, 3, 0, 4, 5, 6, 6, 7, 4]);
    b.clear();
    assert!(b.vertices().is_empty() && b.indices().is_empty());
}

#[test]
fn quad_batch_fills_up() {
    let mut b: QuadBatch<u8> = QuadBatch::new();
    let mut n = 0;
    while !b.needs_flush() {
        b.push_quad(&0, &0, &0, &0);
        n += 1;
    }
    assert_eq!(n, 10922);
    assert_eq!(b.indices().len(), 65532);
}

#[test]
fn chunks_cover_the_elements() {
    assert_eq!(chunk_ranges(10, 4), vec![(0, 4), (4, 4), (8, 2)]);
    assert_eq!(chunk_ranges(8, 4), vec![(0, 4), (4, 4)]);
    assert_eq!(chunk_ranges(0, 4), vec![]);
    assert_eq!(chunk_ranges(3, 10), vec![(0, 3)]);
}

#[test]
fn scene_primitives() {
    let red = Color4b { x: 255, y: 0, z: 0, w: 255 };
    let blue = Color4b { x: 0, y: 0, z: 255, w: 255 };
    let s = Segment::new(&(1, 2), &(3, 4), &red);
    assert_eq!(*s.start(), (1, 2));
    assert_eq!(*s.end(), (3, 4));
    let s = s.with_color(&blue);
    assert_eq!(*s.end(), (3, 4));
    let t = Triangle::new(&1, &2, &3, &red).with_color(&blue);
    assert_eq!((*t.v0(), *t.v1(), *t.v2()), (1, 2, 3));
    let q = Quad::new(&'a', &'b', &'c', &'d', &red);
    assert_eq!((*q.v0(), *q.v1(), *q.v2(), *q.v3()), ('a', 'b', 'c', 'd'));
    let q = q.with_color(&blue);
    assert_eq!(*q.v3(), 'd');
    let node = UMNode::Assembly(vec![UMNode::Segments(vec![Segment::new(&0, &1, &red)]), UMNode::Tris(Vec::new())]);
    assert!(matches!(node, UMNode::Assembly(ref v) if v.len() == 2));
    assert_eq!(NavigationMode::Rotate, NavigationMode::Rotate);
}

#[test]
fn erase_data_keeps_kind_and_size() {
    let d = DeviceBufferDesc::Index(Usage::Static(vec![1u8, 2, 3, 4]));
    let e = d.erase_data();
    assert_eq!(e.size(), 4);
    match e {
        DeviceBufferDesc::Index(Usage::Static(b)) => assert_eq!(b, vec![0u8; 4]),
        _ => panic!("kind or usage changed"),
    }
    let v = DeviceBufferDesc::Vertex(Usage::Streamed(64)).erase_data();
    assert!(matches!(v, DeviceBufferDesc::Vertex(Usage::Streamed(64))));
}

#[test]
fn resource_slots_report_liveness() {
    let mut c: ResourceContainer<u32> = ResourceContainer::new();
    let a = c.add(7);
    assert!(c.is_live(a));
    assert!(!c.is_live(a + 1));
    c.remove(a);
    assert!(!c.is_live(a));
}

#[test]
fn quad_vertices_are_stored_as_two_triangles() {
    let red = Color4b { x: 255, y: 0, z: 0, w: 255 };
    let q = Quad::new(&1u32, &2u32, &3u32, &4u32, &red);
    let pos: Vec<u32> = (0..6).map(|i| q.vertex_at(i).position).collect();
    assert_eq!(pos, vec![1, 2, 3, 3, 4, 1]);
    assert_eq!(q.vertex_at(5).color, red);
}

#[test]
fn draw_plans_check_count_then_index_buffer() {
    assert_eq!(draw_plan(PrimitiveType::Triangles, IndexType::UInt16, true, 4), Ok((DrawCall::Indexed16, 12)));
    assert_eq!(draw_plan(PrimitiveType::Lines, IndexType::UInt32, true, 3), Ok((DrawCall::Indexed32, 6)));
    assert_eq!(draw_plan(PrimitiveType::TriangleStrip, IndexType::NoIndex, false, 3), Ok((DrawCall::Arrays, 5)));
    assert_eq!(draw_plan(PrimitiveType::Points, IndexType::NoIndex, true, 3), Err(DrawError::IndexBufferWithoutIndexType));
    assert_eq!(draw_plan(PrimitiveType::Points, IndexType::UInt16, false, 3), Err(DrawError::IndexTypeWithoutIndexBuffer));
    assert_eq!(draw_plan(PrimitiveType::Triangles, IndexType::UInt16, true, u32::MAX), Err(DrawError::TooManyVertices));
    assert_eq!(draw_plan(PrimitiveType::LineStrip, IndexType::NoIndex, true, u32::MAX), Err(DrawError::TooManyVertices));
}
