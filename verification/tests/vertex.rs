use storm::gltf::accessor::{AccessorComponentType, AccessorType};
use storm::vertex::{
    index_format, padded_size, vertex_attribute_layout, vertex_format, IndexFormat,
    VertexAttribute, VertexFormat, VertexScalar, COPY_BUFFER_ALIGNMENT,
};

fn format(scalar: VertexScalar, component_bytes: usize, components: usize) -> VertexFormat {
    VertexFormat { scalar, component_bytes, components }
}

#[test]
fn vertex_formats() {
    assert_eq!(vertex_format(AccessorComponentType::UnsignedByte, true, AccessorType::Vec4), format(VertexScalar::Unorm, 1, 4));
    assert_eq!(vertex_format(AccessorComponentType::UnsignedByte, false, AccessorType::Scalar), format(VertexScalar::Uint, 1, 1));
    assert_eq!(vertex_format(AccessorComponentType::Byte, false, AccessorType::Vec2), format(VertexScalar::Sint, 1, 2));
    assert_eq!(vertex_format(AccessorComponentType::Short, true, AccessorType::Scalar), format(VertexScalar::Snorm, 2, 1));
    assert_eq!(vertex_format(AccessorComponentType::UnsignedShort, true, AccessorType::Vec2), format(VertexScalar::Unorm, 2, 2));
    assert_eq!(vertex_format(AccessorComponentType::Float, false, AccessorType::Vec3), format(VertexScalar::Float, 4, 3));
    assert_eq!(vertex_format(AccessorComponentType::Float, true, AccessorType::Vec4), format(VertexScalar::Float, 4, 4));
    assert_eq!(vertex_format(AccessorComponentType::UnsignedInt, false, AccessorType::Vec3), format(VertexScalar::Uint, 4, 3));
}

#[test]
fn vertex_attribute_offsets() {
    assert_eq!(
        vertex_attribute_layout(AccessorComponentType::Float, false, AccessorType::Vec2, 48, 3),
        VertexAttribute { format: format(VertexScalar::Float, 4, 2), offset: 48, shader_location: 3 }
    );
}

#[test]
fn index_formats() {
    assert_eq!(index_format(AccessorComponentType::UnsignedShort), IndexFormat::Uint16);
    assert_eq!(index_format(AccessorComponentType::UnsignedInt), IndexFormat::Uint32);
}

#[test]
fn padded_buffer_sizes() {
    assert_eq!(COPY_BUFFER_ALIGNMENT, 4);
    assert_eq!(padded_size(0), 4);
    assert_eq!(padded_size(1), 4);
    assert_eq!(padded_size(4), 4);
    assert_eq!(padded_size(5), 8);
    assert_eq!(padded_size(17), 20);
    assert_eq!(padded_size(u64::MAX - 3), u64::MAX - 3);
}
