use crate::gltf::accessor::{component_size, type_dim, AccessorComponentType, AccessorType};
use vstd::prelude::*;

verus! {

/// How the GPU reads the components of a vertex attribute.
#[derive(Debug, Clone, Copy, PartialEq, Eq, Structural)]
pub enum VertexScalar {
    /// Unsigned integers, read as they are.
    Uint,
    /// Signed integers, read as they are.
    Sint,
    /// Unsigned integers, mapped to `[0, 1]`.
    Unorm,
    /// Signed integers, mapped to `[-1, 1]`.
    Snorm,
    /// Floating-point numbers.
    Float,
}

/// The GPU format of a vertex attribute: how its components are read, the size of
/// one component in bytes and the number of components.
#[derive(Debug, Clone, Copy, PartialEq, Eq, Structural)]
pub struct VertexFormat {
    pub scalar: VertexScalar,
    pub component_bytes: usize,
    pub components: usize,
}

/// A vertex attribute: its format, its offset in the buffer and the shader input
/// it feeds.
#[derive(Debug, Clone, Copy, PartialEq, Eq, Structural)]
pub struct VertexAttribute {
    pub format: VertexFormat,
    pub offset: u64,
    pub shader_location: u32,
}

/// Whether the component type is a signed integer.
pub open spec fn is_signed(t: AccessorComponentType) -> bool {
    t == AccessorComponentType::Byte || t == AccessorComponentType::Short
}

/// How components of type `t` are read, normalized or not.
pub open spec fn scalar_of(t: AccessorComponentType, normalized: bool) -> VertexScalar {
    if t == AccessorComponentType::Float {
        VertexScalar::Float
    } else if normalized {
        if is_signed(t) {
            VertexScalar::Snorm
        } else {
            VertexScalar::Unorm
        }
    } else if is_signed(t) {
        VertexScalar::Sint
    } else {
        VertexScalar::Uint
    }
}

/// Floats are read as floats whatever the flag says. Integers are read as the
/// integers they are unless the accessor is normalized, and then as fractions:
/// signed types (`Byte`, `Short`) map to `[-1, 1]`, unsigned ones to `[0, 1]`.
pub proof fn law_scalar_of(t: AccessorComponentType, normalized: bool)
    ensures
        (scalar_of(t, normalized) == VertexScalar::Float) == (t == AccessorComponentType::Float),
        (scalar_of(t, normalized) == VertexScalar::Sint) == (!normalized && (t
            == AccessorComponentType::Byte || t == AccessorComponentType::Short)),
        (scalar_of(t, normalized) == VertexScalar::Uint) == (!normalized && (t
            == AccessorComponentType::UnsignedByte || t == AccessorComponentType::UnsignedShort || t
            == AccessorComponentType::UnsignedInt)),
        (scalar_of(t, normalized) == VertexScalar::Snorm) == (normalized && (t
            == AccessorComponentType::Byte || t == AccessorComponentType::Short)),
        (scalar_of(t, normalized) == VertexScalar::Unorm) == (normalized && (t
            == AccessorComponentType::UnsignedByte || t == AccessorComponentType::UnsignedShort || t
            == AccessorComponentType::UnsignedInt)),
{
}

/// The GPU has a vertex format for the data: no matrices, no normalized 32-bit
/// integers and no three-component vectors of 8- or 16-bit integers.
pub open spec fn vertex_format_exists(
    t: AccessorComponentType,
    normalized: bool,
    dim: AccessorType,
) -> bool {
    &&& type_dim(dim) <= 4 && dim != AccessorType::Mat2
    &&& !(t == AccessorComponentType::UnsignedInt && normalized)
    &&& !(component_size(t) < 4 && type_dim(dim) == 3)
}

/// The GPU vertex format for elements of `dim` components of type `t`.
pub fn vertex_format(t: AccessorComponentType, normalized: bool, dim: AccessorType) -> (r: VertexFormat)
    requires
        vertex_format_exists(t, normalized, dim),
    ensures
        r.scalar == scalar_of(t, normalized),
        r.component_bytes == component_size(t),
        r.components == type_dim(dim),
        (r.scalar == VertexScalar::Float) == (t == AccessorComponentType::Float),
        (r.scalar == VertexScalar::Sint) == (!normalized && (t == AccessorComponentType::Byte || t
            == AccessorComponentType::Short)),
        (r.scalar == VertexScalar::Uint) == (!normalized && (t == AccessorComponentType::UnsignedByte
            || t == AccessorComponentType::UnsignedShort || t == AccessorComponentType::UnsignedInt)),
        (r.scalar == VertexScalar::Snorm) == (normalized && (t == AccessorComponentType::Byte || t
            == AccessorComponentType::Short)),
        (r.scalar == VertexScalar::Unorm) == (normalized && (t
            == AccessorComponentType::UnsignedByte || t == AccessorComponentType::UnsignedShort)),
{
    proof {
        law_scalar_of(t, normalized);
    }
    let signed = match t {
        AccessorComponentType::Byte | AccessorComponentType::Short => true,
        _ => false,
    };
    let scalar = match t {
        AccessorComponentType::Float => VertexScalar::Float,
        _ => if normalized {
            if signed {
                VertexScalar::Snorm
            } else {
                VertexScalar::Unorm
            }
        } else if signed {
            VertexScalar::Sint
        } else {
            VertexScalar::Uint
        },
    };
    VertexFormat { scalar, component_bytes: t.size(), components: dim.dim() }
}

/// The vertex attribute that reads an accessor's data from `offset` of its buffer
/// into the shader input `shader_location`.
pub fn vertex_attribute_layout(
    t: AccessorComponentType,
    normalized: bool,
    dim: AccessorType,
    offset: u64,
    shader_location: u32,
) -> (r: VertexAttribute)
    requires
        vertex_format_exists(t, normalized, dim),
    ensures
        r.format.scalar == scalar_of(t, normalized),
        r.format.component_bytes == component_size(t),
        r.format.components == type_dim(dim),
        r.offset == offset,
        r.shader_location == shader_location,
{
    VertexAttribute { format: vertex_format(t, normalized, dim), offset, shader_location }
}

/// The integer type of GPU index buffers.
#[derive(Debug, Clone, Copy, PartialEq, Eq, Structural)]
pub enum IndexFormat {
    Uint16,
    Uint32,
}

/// The index format for indices of component type `t`, which must be 16- or
/// 32-bit unsigned integers.
pub fn index_format(t: AccessorComponentType) -> (r: IndexFormat)
    requires
        t == AccessorComponentType::UnsignedShort || t == AccessorComponentType::UnsignedInt,
    ensures
        t == AccessorComponentType::UnsignedShort ==> r == IndexFormat::Uint16,
        t == AccessorComponentType::UnsignedInt ==> r == IndexFormat::Uint32,
{
    match t {
        AccessorComponentType::UnsignedShort => IndexFormat::Uint16,
        _ => IndexFormat::Uint32,
    }
}

/// The alignment, in bytes, that the GPU requires of buffer sizes and copies.
pub const COPY_BUFFER_ALIGNMENT: u64 = 4;

/// A buffer size rounded up to the copy alignment, and never zero.
pub open spec fn spec_padded_size(size: int) -> int {
    if size == 0 {
        4
    } else {
        (size + 3) / 4 * 4
    }
}

/// The size of a GPU buffer holding `size` bytes: rounded up to a multiple of the
/// copy alignment, and at least that alignment.
pub fn padded_size(size: u64) -> (r: u64)
    requires
        size + 3 <= u64::MAX,
    ensures
        r == spec_padded_size(size as int),
        r % 4 == 0,
        r >= size,
        r >= COPY_BUFFER_ALIGNMENT,
        size > 0 ==> r < size + 4,
        size == 0 ==> r == 4,
{
    let align_mask = COPY_BUFFER_ALIGNMENT - 1;
    let sum = size + align_mask;
    let padded = sum & !align_mask;
    assert(padded == sum / 4 * 4) by (bit_vector)
        requires
            align_mask == 3u64,
            padded == sum & !align_mask,
    ;
    if padded < COPY_BUFFER_ALIGNMENT {
        COPY_BUFFER_ALIGNMENT
    } else {
        padded
    }
}

} // verus!
