use crate::gltf::buffer::{slice_range, view_bytes, Buffer, BufferView, BufferViewError};
use vstd::prelude::*;

verus! {

/// The datatype of an accessor's components.
#[derive(Debug, Clone, Copy, PartialEq, Eq, Structural)]
pub enum AccessorComponentType {
    Byte,
    UnsignedByte,
    Short,
    UnsignedShort,
    UnsignedInt,
    Float,
}

/// Size in bytes of a component type.
pub open spec fn component_size(t: AccessorComponentType) -> usize {
    match t {
        AccessorComponentType::Byte | AccessorComponentType::UnsignedByte => 1,
        AccessorComponentType::Short | AccessorComponentType::UnsignedShort => 2,
        AccessorComponentType::Float | AccessorComponentType::UnsignedInt => 4,
    }
}

impl AccessorComponentType {
    /// Size of the described type in bytes.
    pub fn size(&self) -> (r: usize)
        ensures
            r == component_size(*self),
    {
        match self {
            AccessorComponentType::Byte | AccessorComponentType::UnsignedByte => 1,
            AccessorComponentType::Short | AccessorComponentType::UnsignedShort => 2,
            AccessorComponentType::Float | AccessorComponentType::UnsignedInt => 4,
        }
    }

    /// The name shown for the type.
    pub fn name(&self) -> (r: &'static str)
        ensures
            r@ == match *self {
                AccessorComponentType::Byte => "byte"@,
                AccessorComponentType::UnsignedByte => "unsigned byte"@,
                AccessorComponentType::Short => "short"@,
                AccessorComponentType::UnsignedShort => "unsigned short"@,
                AccessorComponentType::UnsignedInt => "unsigned int"@,
                AccessorComponentType::Float => "float"@,
            },
    {
        match self {
            AccessorComponentType::Byte => "byte",
            AccessorComponentType::UnsignedByte => "unsigned byte",
            AccessorComponentType::Short => "short",
            AccessorComponentType::UnsignedShort => "unsigned short",
            AccessorComponentType::UnsignedInt => "unsigned int",
            AccessorComponentType::Float => "float",
        }
    }
}

/// Whether an accessor's elements are scalars, vectors or matrices.
#[derive(Debug, Clone, Copy, PartialEq, Eq, Structural)]
pub enum AccessorType {
    Scalar,
    Vec2,
    Vec3,
    Vec4,
    Mat2,
    Mat3,
    Mat4,
}

/// Number of components of an element type.
pub open spec fn type_dim(t: AccessorType) -> usize {
    match t {
        AccessorType::Scalar => 1,
        AccessorType::Vec2 => 2,
        AccessorType::Vec3 => 3,
        AccessorType::Vec4 => 4,
        AccessorType::Mat2 => 4,
        AccessorType::Mat3 => 9,
        AccessorType::Mat4 => 16,
    }
}

impl AccessorType {
    /// Dimension (the number of components) of the described type.
    pub fn dim(&self) -> (r: usize)
        ensures
            r == type_dim(*self),
    {
        match self {
            AccessorType::Scalar => 1,
            AccessorType::Vec2 => 2,
            AccessorType::Vec3 => 3,
            AccessorType::Vec4 => 4,
            AccessorType::Mat2 => 2 * 2,
            AccessorType::Mat3 => 3 * 3,
            AccessorType::Mat4 => 4 * 4,
        }
    }

    /// The name shown for the type.
    pub fn name(&self) -> (r: &'static str)
        ensures
            r@ == match *self {
                AccessorType::Scalar => "scalar"@,
                AccessorType::Vec2 => "vec2"@,
                AccessorType::Vec3 => "vec3"@,
                AccessorType::Vec4 => "vec4"@,
                AccessorType::Mat2 => "mat2"@,
                AccessorType::Mat3 => "mat3"@,
                AccessorType::Mat4 => "mat4"@,
            },
    {
        match self {
            AccessorType::Scalar => "scalar",
            AccessorType::Vec2 => "vec2",
            AccessorType::Vec3 => "vec3",
            AccessorType::Vec4 => "vec4",
            AccessorType::Mat2 => "mat2",
            AccessorType::Mat3 => "mat3",
            AccessorType::Mat4 => "mat4",
        }
    }
}

/// The datatype of sparse indices.
#[derive(Debug, Clone, Copy, PartialEq, Eq, Structural)]
pub enum SparseAccessorComponentType {
    UnsignedByte,
    UnsignedShort,
    UnsignedInt,
}

/// Size in bytes of a sparse index type.
pub open spec fn index_size(t: SparseAccessorComponentType) -> usize {
    match t {
        SparseAccessorComponentType::UnsignedByte => 1,
        SparseAccessorComponentType::UnsignedShort => 2,
        SparseAccessorComponentType::UnsignedInt => 4,
    }
}

impl SparseAccessorComponentType {
    /// Size in bytes of one index.
    pub fn size(&self) -> (r: usize)
        ensures
            r == index_size(*self),
    {
        match self {
            SparseAccessorComponentType::UnsignedByte => 1,
            SparseAccessorComponentType::UnsignedShort => 2,
            SparseAccessorComponentType::UnsignedInt => 4,
        }
    }
}

/// Where the indices of the deviating values are stored.
#[derive(Debug, Clone, Copy, PartialEq, Eq, Structural)]
pub struct SparseAccessorIndices {
    pub buffer_view: usize,
    pub byte_offset: usize,
    pub component_type: SparseAccessorComponentType,
}

/// Where the deviating values are stored.
#[derive(Debug, Clone, Copy, PartialEq, Eq, Structural)]
pub struct SparseAccessorValues {
    pub buffer_view: usize,
    pub byte_offset: usize,
}

/// Storage of the elements that deviate from their initialization value.
#[derive(Debug, Clone, Copy, PartialEq, Eq, Structural)]
pub struct SparseAccessor {
    pub count: usize,
    pub indices: SparseAccessorIndices,
    pub values: SparseAccessorValues,
}

/// A typed view into a buffer view.
pub struct Accessor {
    pub buffer_view: Option<usize>,
    pub byte_offset: usize,
    pub component_type: AccessorComponentType,
    pub normalized: bool,
    pub count: usize,
    pub type_: AccessorType,
    pub sparse: Option<SparseAccessor>,
    pub name: Option<String>,
}

/// Why the data of an accessor cannot be had.
#[derive(Debug, Clone, Copy, PartialEq, Eq, Structural)]
pub enum AccessorError {
    /// Tightly packed bytes were asked of a sparse accessor.
    Sparse,
    /// Neither a buffer view nor sparse storage is given.
    BufferViewUndefined,
    /// The accessor names a buffer view that does not exist.
    BufferViewOutOfRange(usize),
    /// The buffer view's stride differs from the element size.
    NotTightlyPacked,
    /// The bytes of the named buffer view cannot be had.
    ViewUnavailable(usize, BufferViewError),
    /// The named buffer view ends before the accessor's data does.
    ViewTooShort(usize),
    /// The sparse indices name a buffer view that does not exist.
    SparseIndicesViewOutOfRange(usize),
    /// The bytes of the sparse indices' buffer view cannot be had.
    SparseIndicesViewUnavailable(usize, BufferViewError),
    /// The sparse indices' buffer view ends before the indices do.
    SparseIndicesTooShort(usize),
    /// The sparse values name a buffer view that does not exist.
    SparseValuesViewOutOfRange(usize),
    /// The bytes of the sparse values' buffer view cannot be had.
    SparseValuesViewUnavailable(usize, BufferViewError),
    /// The sparse values' buffer view ends before the values do.
    SparseValuesTooShort(usize),
}

/// What an accessor reads from a buffer view; it decides how failures are reported.
#[derive(Debug, Clone, Copy, PartialEq, Eq, Structural)]
pub enum ViewRole {
    Data,
    SparseIndices,
    SparseValues,
}

/// The error for a missing view.
pub open spec fn out_of_range_error(role: ViewRole, index: usize) -> AccessorError {
    match role {
        ViewRole::Data => AccessorError::BufferViewOutOfRange(index),
        ViewRole::SparseIndices => AccessorError::SparseIndicesViewOutOfRange(index),
        ViewRole::SparseValues => AccessorError::SparseValuesViewOutOfRange(index),
    }
}

/// The error for a view whose bytes cannot be had.
pub open spec fn unavailable_error(role: ViewRole, index: usize, e: BufferViewError) -> AccessorError {
    match role {
        ViewRole::Data => AccessorError::ViewUnavailable(index, e),
        ViewRole::SparseIndices => AccessorError::SparseIndicesViewUnavailable(index, e),
        ViewRole::SparseValues => AccessorError::SparseValuesViewUnavailable(index, e),
    }
}

/// The error for a view that ends too early.
pub open spec fn too_short_error(role: ViewRole, index: usize) -> AccessorError {
    match role {
        ViewRole::Data => AccessorError::ViewTooShort(index),
        ViewRole::SparseIndices => AccessorError::SparseIndicesTooShort(index),
        ViewRole::SparseValues => AccessorError::SparseValuesTooShort(index),
    }
}

/// The bytes from `start` to `end` of the view `index`, or why they cannot be had.
pub open spec fn range_in_view(
    views: Seq<BufferView>,
    buffers: Seq<Buffer>,
    role: ViewRole,
    index: usize,
    start: int,
    end: int,
) -> Result<Seq<u8>, AccessorError> {
    if index >= views.len() {
        Err(out_of_range_error(role, index))
    } else {
        match view_bytes(views[index as int], buffers) {
            Err(e) => Err(unavailable_error(role, index, e)),
            Ok(b) => if end <= b.len() {
                Ok(b.subrange(start, end))
            } else {
                Err(too_short_error(role, index))
            },
        }
    }
}

/// All views have ends that fit in memory and strides that are not zero.
pub open spec fn views_wf(views: Seq<BufferView>) -> bool {
    forall|i: int| 0 <= i < views.len() ==> (#[trigger] views[i]).wf()
}

/// Reads the bytes from `start` to `end` of view `index`.
fn view_range<'a>(
    views: &[BufferView],
    buffers: &'a [Buffer],
    role: ViewRole,
    index: usize,
    start: usize,
    end: usize,
) -> (r: Result<&'a [u8], AccessorError>)
    requires
        views_wf(views@),
        start <= end,
    ensures
        match range_in_view(views@, buffers@, role, index, start as int, end as int) {
            Ok(b) => r matches Ok(s) && s@ == b,
            Err(e) => r == Err::<&[u8], AccessorError>(e),
        },
{
    if index >= views.len() {
        return Err(
            match role {
                ViewRole::Data => AccessorError::BufferViewOutOfRange(index),
                ViewRole::SparseIndices => AccessorError::SparseIndicesViewOutOfRange(index),
                ViewRole::SparseValues => AccessorError::SparseValuesViewOutOfRange(index),
            },
        );
    }
    let view = &views[index];
    assert(views@[index as int].wf());
    let bytes = match view.bytes(buffers) {
        Ok(b) => b,
        Err(e) => {
            return Err(
                match role {
                    ViewRole::Data => AccessorError::ViewUnavailable(index, e),
                    ViewRole::SparseIndices => AccessorError::SparseIndicesViewUnavailable(index, e),
                    ViewRole::SparseValues => AccessorError::SparseValuesViewUnavailable(index, e),
                },
            );
        },
    };
    if end > bytes.len() {
        return Err(
            match role {
                ViewRole::Data => AccessorError::ViewTooShort(index),
                ViewRole::SparseIndices => AccessorError::SparseIndicesTooShort(index),
                ViewRole::SparseValues => AccessorError::SparseValuesTooShort(index),
            },
        );
    }
    Ok(slice_range(bytes, start, end))
}


/// The tightly packed bytes of a dense accessor, or why they cannot be had.
pub open spec fn packed_bytes(
    acc: Accessor,
    views: Seq<BufferView>,
    buffers: Seq<Buffer>,
) -> Result<Seq<u8>, AccessorError> {
    let stride = type_dim(acc.type_) * component_size(acc.component_type);
    let start = acc.byte_offset as int;
    let end = start + acc.count * stride;
    if acc.sparse is Some {
        Err(AccessorError::Sparse)
    } else {
        match acc.buffer_view {
            None => Err(AccessorError::BufferViewUndefined),
            Some(i) => if i >= views.len() {
                Err(AccessorError::BufferViewOutOfRange(i))
            } else if views[i as int].byte_stride matches Some(s) && s != stride {
                Err(AccessorError::NotTightlyPacked)
            } else {
                range_in_view(views, buffers, ViewRole::Data, i, start, end)
            },
        }
    }
}

/// The bytes of a dense run of `count` elements of `elem_size` bytes in view
/// `buffer_view` starting at `byte_offset`, elements being the view's stride
/// apart (or `elem_size` apart when the view gives none); with the stride used.
pub open spec fn dense_bytes(
    views: Seq<BufferView>,
    buffers: Seq<Buffer>,
    buffer_view: usize,
    byte_offset: usize,
    count: usize,
    elem_size: usize,
) -> Result<(Seq<u8>, usize), AccessorError> {
    if buffer_view >= views.len() {
        Err(AccessorError::BufferViewOutOfRange(buffer_view))
    } else {
        let stride = match views[buffer_view as int].byte_stride {
            Some(s) => s,
            None => elem_size,
        };
        let end = byte_offset + (count - 1) * stride + elem_size;
        match range_in_view(views, buffers, ViewRole::Data, buffer_view, byte_offset as int, end) {
            Ok(b) => Ok((b, stride)),
            Err(e) => Err(e),
        }
    }
}

/// Stride used for a dense run in view `buffer_view`.
pub open spec fn stride_in(views: Seq<BufferView>, buffer_view: usize, elem_size: usize) -> usize {
    match views[buffer_view as int].byte_stride {
        Some(s) => s,
        None => elem_size,
    }
}

/// The value of the little-endian index of `size` bytes at `pos`.
pub open spec fn le_index(b: Seq<u8>, pos: int, size: usize) -> int {
    if size == 1 {
        b[pos] as int
    } else if size == 2 {
        b[pos] as int + 256 * (b[pos + 1] as int)
    } else {
        b[pos] as int + 256 * (b[pos + 1] as int) + 65536 * (b[pos + 2] as int) + 16777216 * (
        b[pos + 3] as int)
    }
}

/// The indices stored in `b`, each `size` bytes long.
pub open spec fn decoded_indices(b: Seq<u8>, size: usize) -> Seq<usize> {
    Seq::new(((b.len() as int) / (size as int)) as nat, |i: int| le_index(b, i * size, size) as usize)
}

/// The sparse indices and the bytes of the sparse values, or why they cannot be had.
pub open spec fn sparse_parts(
    sparse: SparseAccessor,
    elem_size: usize,
    views: Seq<BufferView>,
    buffers: Seq<Buffer>,
) -> Result<(Seq<usize>, Seq<u8>), AccessorError> {
    let isize = index_size(sparse.indices.component_type);
    let istart = sparse.indices.byte_offset as int;
    let iend = istart + sparse.count * isize;
    let vstart = sparse.values.byte_offset as int;
    let vend = vstart + sparse.count * elem_size;
    match range_in_view(
        views,
        buffers,
        ViewRole::SparseIndices,
        sparse.indices.buffer_view,
        istart,
        iend,
    ) {
        Err(e) => Err(e),
        Ok(ib) => match range_in_view(
            views,
            buffers,
            ViewRole::SparseValues,
            sparse.values.buffer_view,
            vstart,
            vend,
        ) {
            Err(e) => Err(e),
            Ok(vb) => Ok((decoded_indices(ib, isize), vb)),
        },
    }
}

/// Decodes `count` little-endian indices of `size` bytes.
fn decode_indices(b: &[u8], size: usize, count: usize) -> (r: Vec<usize>)
    requires
        size == 1 || size == 2 || size == 4,
        b@.len() == count * size,
    ensures
        r@ == decoded_indices(b@, size),
{
    let mut out: Vec<usize> = Vec::with_capacity(count);
    let mut i: usize = 0;
    let blen = b.len();
    assert(blen == count * size);
    proof {
        assert((b@.len() as int) / (size as int) == count) by (nonlinear_arith)
            requires
                b@.len() == count * size,
                size > 0,
        ;
    }
    while i < count
        invariant
            size == 1 || size == 2 || size == 4,
            b@.len() == count * size,
            count * size <= usize::MAX,
            (b@.len() as int) / (size as int) == count,
            i <= count,
            out@.len() == i,
            forall|j: int| 0 <= j < i ==> out@[j] == le_index(b@, j * size, size) as usize,
        decreases count - i,
    {
        proof {
            assert(i * size + size <= count * size) by (nonlinear_arith)
                requires
                    i < count,
            ;
        }
        let pos = i * size;
        let v: usize = if size == 1 {
            b[pos].as_usize()
        } else if size == 2 {
            let h0 = b[pos] as u16;
            let h1 = b[pos + 1] as u16;
            let h: u16 = h0 + 256 * h1;
            h.as_usize()
        } else {
            let w0 = b[pos] as u32;
            let w1 = b[pos + 1] as u32;
            let w2 = b[pos + 2] as u32;
            let w3 = b[pos + 3] as u32;
            assert(w0 + 256 * w1 + 65536 * w2 + 16777216 * w3 <= u32::MAX) by (nonlinear_arith)
                requires
                    w0 < 256,
                    w1 < 256,
                    w2 < 256,
                    w3 < 256,
            ;
            let w: u32 = w0 + 256 * w1 + 65536 * w2 + 16777216 * w3;
            w.as_usize()
        };
        out.push(v);
        i = i + 1;
    }
    proof {
        assert(out@ =~= decoded_indices(b@, size));
    }
    out
}

impl Accessor {
    /// The number of elements of the accessor.
    pub fn count(&self) -> (r: usize)
        ensures
            r == self.count,
    {
        self.count
    }

    /// Whether the elements are scalars, vectors or matrices.
    pub fn type_(&self) -> (r: AccessorType)
        ensures
            r == self.type_,
    {
        self.type_
    }

    /// The datatype of the components.
    pub fn component_type(&self) -> (r: AccessorComponentType)
        ensures
            r == self.component_type,
    {
        self.component_type
    }

    /// Whether integer components are normalized when read.
    pub fn normalized(&self) -> (r: bool)
        ensures
            r == self.normalized,
    {
        self.normalized
    }

    /// The bytes of all the elements of a dense accessor whose data are tightly packed.
    pub fn bytes_dense_tighly_packed<'a>(
        &'a self,
        buffer_views: &[BufferView],
        buffers: &'a [Buffer],
    ) -> (r: Result<&'a [u8], AccessorError>)
        requires
            views_wf(buffer_views@),
            self.sparse is None ==> self.byte_offset + self.count * (type_dim(self.type_)
                * component_size(self.component_type)) <= usize::MAX,
        ensures
            match packed_bytes(*self, buffer_views@, buffers@) {
                Ok(b) => r matches Ok(s) && s@ == b,
                Err(e) => r == Err::<&[u8], AccessorError>(e),
            },
    {
        if self.sparse.is_some() {
            return Err(AccessorError::Sparse);
        }
        let start = self.byte_offset;
        let stride = self.type_.dim() * self.component_type.size();
        proof {
            assert(self.count * stride >= 0) by (nonlinear_arith);
        }
        let end = start + self.count * stride;
        let buffer_view_idx = match self.buffer_view {
            Some(i) => i,
            None => return Err(AccessorError::BufferViewUndefined),
        };
        if buffer_view_idx >= buffer_views.len() {
            return Err(AccessorError::BufferViewOutOfRange(buffer_view_idx));
        }
        if let Some(byte_stride) = buffer_views[buffer_view_idx].byte_stride() {
            if byte_stride != stride {
                return Err(AccessorError::NotTightlyPacked);
            }
        }
        view_range(buffer_views, buffers, ViewRole::Data, buffer_view_idx, start, end)
    }
}


/// The bytes of element `i` of a run with the given stride and element size, if
/// the run is long enough.
pub open spec fn element_at(data: Seq<u8>, stride: int, size: int, i: int) -> Option<Seq<u8>> {
    let start = i * stride;
    if start + size <= data.len() {
        Some(data.subrange(start, start + size))
    } else {
        None
    }
}

/// The bytes of the `p`th sparse value.
pub open spec fn sparse_value(values: Seq<u8>, size: int, p: int) -> Seq<u8> {
    values.subrange(p * size, p * size + size)
}

/// Element `i` is taken from sparse storage: the next sparse index is `i`.
pub open spec fn takes_sparse(indices: Seq<usize>, i: int, p: int) -> bool {
    0 <= p < indices.len() && indices[p] == i
}

/// Indices increase strictly, as the format requires.
pub open spec fn strictly_increasing(s: Seq<usize>) -> bool {
    forall|a: int, b: int| 0 <= a < b < s.len() ==> s[a] < s[b]
}

/// When element `i` is next, the sparse position `p` is past exactly the indices below `i`.
pub open spec fn sparse_pointer_ok(indices: Seq<usize>, i: int, p: int) -> bool {
    &&& 0 <= p <= indices.len()
    &&& forall|k: int| 0 <= k < p ==> indices[k] < i
    &&& p < indices.len() ==> indices[p] >= i
}

/// An iterator over the elements of a dense run of bytes.
pub struct DenseAccessorIter<'a> {
    bytes: &'a [u8],
    next: usize,
    byte_stride: usize,
    elem_size: usize,
}

impl<'a> DenseAccessorIter<'a> {
    /// The bytes of the run.
    pub closed spec fn data(&self) -> Seq<u8> {
        self.bytes@
    }

    /// The index of the next element.
    pub closed spec fn position(&self) -> usize {
        self.next
    }

    /// The distance between elements, in bytes.
    pub closed spec fn stride(&self) -> usize {
        self.byte_stride
    }

    /// The size of one element, in bytes.
    pub closed spec fn elem_size(&self) -> usize {
        self.elem_size
    }

    /// Elements are at least one byte long and a positive distance apart.
    pub open spec fn wf(&self) -> bool {
        self.stride() > 0 && self.elem_size() > 0
    }

    /// Yields the bytes of the next element, if the run holds it.
    pub fn next(&mut self) -> (r: Option<&'a [u8]>)
        requires
            old(self).wf(),
            old(self).position() * old(self).stride() + old(self).elem_size() <= usize::MAX,
        ensures
            final(self).data() == old(self).data(),
            final(self).stride() == old(self).stride(),
            final(self).elem_size() == old(self).elem_size(),
            match element_at(
                old(self).data(),
                old(self).stride() as int,
                old(self).elem_size() as int,
                old(self).position() as int,
            ) {
                Some(e) => r matches Some(b) && b@ == e && final(self).position() == old(
                    self,
                ).position() + 1,
                None => r is None && final(self).position() == old(self).position(),
            },
    {
        proof {
            assert(self.next * self.byte_stride >= self.next) by (nonlinear_arith)
                requires
                    self.byte_stride > 0,
            ;
        }
        let start = self.next * self.byte_stride;
        let end = start + self.elem_size;
        if end > self.bytes.len() {
            return None;
        }
        let value = slice_range(self.bytes, start, end);
        self.next = self.next + 1;
        Some(value)
    }

    /// Skips `n` elements and yields the bytes of the one after them.
    pub fn nth(&mut self, n: usize) -> (r: Option<&'a [u8]>)
        requires
            old(self).wf(),
            (old(self).position() + n) * old(self).stride() + old(self).elem_size() <= usize::MAX,
        ensures
            final(self).data() == old(self).data(),
            final(self).stride() == old(self).stride(),
            final(self).elem_size() == old(self).elem_size(),
            match element_at(
                old(self).data(),
                old(self).stride() as int,
                old(self).elem_size() as int,
                old(self).position() + n,
            ) {
                Some(e) => r matches Some(b) && b@ == e && final(self).position() == old(
                    self,
                ).position() + n + 1,
                None => r is None && final(self).position() == old(self).position() + n,
            },
    {
        proof {
            assert((self.next + n) * self.byte_stride >= self.next + n) by (nonlinear_arith)
                requires
                    self.byte_stride > 0,
            ;
        }
        self.next = self.next + n;
        self.next()
    }

    /// The number of elements still to come, as lower and upper bound.
    pub fn size_hint(&self) -> (r: (usize, Option<usize>))
        requires
            self.wf(),
            self.data().len() >= self.elem_size(),
            self.position() <= (self.data().len() - self.elem_size()) / (self.stride() as int) + 1,
        ensures
            r.0 == (self.data().len() - self.elem_size()) / (self.stride() as int) + 1
                - self.position(),
            r.1 == Some(r.0),
    {
        let len = (self.bytes.len() - self.elem_size) / self.byte_stride + 1 - self.next;
        (len, Some(len))
    }
}

/// An iterator over a dense accessor whose elements may be replaced by sparse values.
pub struct SparseAccessorIter<'a> {
    default_values: DenseAccessorIter<'a>,
    indices: Vec<usize>,
    values: &'a [u8],
    sparse_pos: usize,
}

impl<'a> SparseAccessorIter<'a> {
    /// The run of default values.
    pub closed spec fn defaults(&self) -> DenseAccessorIter<'a> {
        self.default_values
    }

    /// The indices of the elements with a sparse value.
    pub closed spec fn sparse_indices(&self) -> Seq<usize> {
        self.indices@
    }

    /// The bytes of the sparse values.
    pub closed spec fn sparse_values(&self) -> Seq<u8> {
        self.values@
    }

    /// The position of the next sparse index to match.
    pub closed spec fn sparse_position(&self) -> usize {
        self.sparse_pos
    }

    /// The sparse values hold one element per index and the position is in range.
    pub open spec fn wf(&self) -> bool {
        &&& self.sparse_values().len() == self.sparse_indices().len()
            * self.defaults().elem_size()
        &&& self.sparse_position() <= self.sparse_indices().len()
        &&& self.defaults().wf()
    }

    /// Yields the bytes of the next element: the sparse value when the next sparse
    /// index is this element's, the default otherwise.
    pub fn next(&mut self) -> (r: Option<&'a [u8]>)
        requires
            old(self).wf(),
            old(self).defaults().position() * old(self).defaults().stride() + old(
                self,
            ).defaults().elem_size() <= usize::MAX,
        ensures
            final(self).wf(),
            final(self).sparse_indices() == old(self).sparse_indices(),
            final(self).sparse_values() == old(self).sparse_values(),
            final(self).defaults().data() == old(self).defaults().data(),
            final(self).defaults().stride() == old(self).defaults().stride(),
            final(self).defaults().elem_size() == old(self).defaults().elem_size(),
            ({
                let d = old(self).defaults();
                let i = d.position() as int;
                let p = old(self).sparse_position() as int;
                match element_at(d.data(), d.stride() as int, d.elem_size() as int, i) {
                    None => r is None && final(self).defaults().position() == i
                        && final(self).sparse_position() == p,
                    Some(e) => final(self).defaults().position() == i + 1 && if takes_sparse(
                        old(self).sparse_indices(),
                        i,
                        p,
                    ) {
                        r matches Some(b) && b@ == sparse_value(
                            old(self).sparse_values(),
                            d.elem_size() as int,
                            p,
                        ) && final(self).sparse_position() == p + 1
                    } else {
                        r matches Some(b) && b@ == e && final(self).sparse_position() == p
                    },
                }
            }),
    {
        let next = self.default_values.next;
        let default_value = match self.default_values.next() {
            Some(v) => v,
            None => return None,
        };
        if self.sparse_pos < self.indices.len() && self.indices[self.sparse_pos] == next {
            let size = self.default_values.elem_size;
            let vlen = self.values.len();
            assert(vlen == self.indices@.len() * size);
            proof {
                assert(self.sparse_pos * size + size <= self.indices@.len() * size)
                    by (nonlinear_arith)
                    requires
                        self.sparse_pos < self.indices@.len(),
                ;
            }
            let start = self.sparse_pos * size;
            let value = slice_range(self.values, start, start + size);
            self.sparse_pos = self.sparse_pos + 1;
            Some(value)
        } else {
            Some(default_value)
        }
    }
}

/// An iterator over a sparse accessor with no default data: elements without a
/// sparse value are the given default.
pub struct PureSparseAccessorIter<'a> {
    default_value: &'a [u8],
    indices: Vec<usize>,
    values: &'a [u8],
    sparse_pos: usize,
    next: usize,
    count: usize,
}

impl<'a> PureSparseAccessorIter<'a> {
    /// The bytes of the default element.
    pub closed spec fn default_value(&self) -> Seq<u8> {
        self.default_value@
    }

    /// The indices of the elements with a sparse value.
    pub closed spec fn sparse_indices(&self) -> Seq<usize> {
        self.indices@
    }

    /// The bytes of the sparse values.
    pub closed spec fn sparse_values(&self) -> Seq<u8> {
        self.values@
    }

    /// The position of the next sparse index to match.
    pub closed spec fn sparse_position(&self) -> usize {
        self.sparse_pos
    }

    /// The index of the next element.
    pub closed spec fn position(&self) -> usize {
        self.next
    }

    /// The number of elements.
    pub closed spec fn count(&self) -> usize {
        self.count
    }

    /// The sparse values hold one default-sized element per index and the
    /// positions are in range.
    pub open spec fn wf(&self) -> bool {
        &&& self.sparse_values().len() == self.sparse_indices().len()
            * self.default_value().len()
        &&& self.sparse_position() <= self.sparse_indices().len()
        &&& self.position() <= self.count()
    }

    /// Yields the bytes of the next element while fewer than `count` were yielded.
    pub fn next(&mut self) -> (r: Option<&'a [u8]>)
        requires
            old(self).wf(),
        ensures
            final(self).wf(),
            final(self).sparse_indices() == old(self).sparse_indices(),
            final(self).sparse_values() == old(self).sparse_values(),
            final(self).default_value() == old(self).default_value(),
            final(self).count() == old(self).count(),
            ({
                let i = old(self).position() as int;
                let p = old(self).sparse_position() as int;
                if i >= old(self).count() {
                    r is None && final(self).position() == i && final(self).sparse_position() == p
                } else if takes_sparse(old(self).sparse_indices(), i, p) {
                    r matches Some(b) && b@ == sparse_value(
                        old(self).sparse_values(),
                        old(self).default_value().len() as int,
                        p,
                    ) && final(self).position() == i + 1 && final(self).sparse_position() == p + 1
                } else {
                    r matches Some(b) && b@ == old(self).default_value() && final(self).position()
                        == i + 1 && final(self).sparse_position() == p
                }
            }),
    {
        if self.next < self.count {
            let value = if self.sparse_pos < self.indices.len() && self.indices[self.sparse_pos]
                == self.next {
                let size = self.default_value.len();
                let vlen = self.values.len();
            assert(vlen == self.indices@.len() * size);
                proof {
                    assert(self.sparse_pos * size + size <= self.indices@.len() * size)
                        by (nonlinear_arith)
                        requires
                            self.sparse_pos < self.indices@.len(),
                    ;
                }
                let start = self.sparse_pos * size;
                let v = slice_range(self.values, start, start + size);
                self.sparse_pos = self.sparse_pos + 1;
                v
            } else {
                self.default_value
            };
            self.next = self.next + 1;
            Some(value)
        } else {
            None
        }
    }
}

/// An iterator over the elements of an accessor, dense, sparse over dense
/// defaults, or sparse over a constant default.
pub enum AccessorIter<'a> {
    Dense(DenseAccessorIter<'a>),
    Sparse(SparseAccessorIter<'a>),
    PureSparse(PureSparseAccessorIter<'a>),
}

/// One step of a dense iterator from `o` to `f` yielding `r`: the element at the
/// position when the run holds it, and the position moves past it.
pub open spec fn dense_step<'a>(
    o: DenseAccessorIter<'a>,
    f: DenseAccessorIter<'a>,
    r: Option<&'a [u8]>,
) -> bool {
    &&& f.data() == o.data()
    &&& f.stride() == o.stride()
    &&& f.elem_size() == o.elem_size()
    &&& match element_at(o.data(), o.stride() as int, o.elem_size() as int, o.position() as int) {
        Some(e) => r matches Some(b) && b@ == e && f.position() == o.position() + 1,
        None => r is None && f.position() == o.position(),
    }
}

/// One step of a sparse iterator from `o` to `f` yielding `r`: the sparse value
/// when the next sparse index is this element's, the default otherwise.
pub open spec fn sparse_step<'a>(
    o: SparseAccessorIter<'a>,
    f: SparseAccessorIter<'a>,
    r: Option<&'a [u8]>,
) -> bool {
    let d = o.defaults();
    let i = d.position() as int;
    let p = o.sparse_position() as int;
    &&& f.wf()
    &&& f.sparse_indices() == o.sparse_indices()
    &&& f.sparse_values() == o.sparse_values()
    &&& f.defaults().data() == d.data()
    &&& f.defaults().stride() == d.stride()
    &&& f.defaults().elem_size() == d.elem_size()
    &&& match element_at(d.data(), d.stride() as int, d.elem_size() as int, i) {
        None => r is None && f.defaults().position() == i && f.sparse_position() == p,
        Some(e) => f.defaults().position() == i + 1 && if takes_sparse(o.sparse_indices(), i, p) {
            r matches Some(b) && b@ == sparse_value(o.sparse_values(), d.elem_size() as int, p)
                && f.sparse_position() == p + 1
        } else {
            r matches Some(b) && b@ == e && f.sparse_position() == p
        },
    }
}

/// One step of a pure sparse iterator from `o` to `f` yielding `r`: nothing past
/// `count` elements, else the sparse value when the next sparse index is this
/// element's and the default otherwise.
pub open spec fn pure_sparse_step<'a>(
    o: PureSparseAccessorIter<'a>,
    f: PureSparseAccessorIter<'a>,
    r: Option<&'a [u8]>,
) -> bool {
    let i = o.position() as int;
    let p = o.sparse_position() as int;
    &&& f.wf()
    &&& f.sparse_indices() == o.sparse_indices()
    &&& f.sparse_values() == o.sparse_values()
    &&& f.default_value() == o.default_value()
    &&& f.count() == o.count()
    &&& if i >= o.count() {
        r is None && f.position() == i && f.sparse_position() == p
    } else if takes_sparse(o.sparse_indices(), i, p) {
        r matches Some(b) && b@ == sparse_value(
            o.sparse_values(),
            o.default_value().len() as int,
            p,
        ) && f.position() == i + 1 && f.sparse_position() == p + 1
    } else {
        r matches Some(b) && b@ == o.default_value() && f.position() == i + 1
            && f.sparse_position() == p
    }
}

impl<'a> AccessorIter<'a> {
    /// The iterator can take a step without overflow.
    pub open spec fn can_advance(&self) -> bool {
        match self {
            AccessorIter::Dense(it) => it.wf() && it.position() * it.stride() + it.elem_size()
                <= usize::MAX,
            AccessorIter::Sparse(it) => it.wf() && it.defaults().position()
                * it.defaults().stride() + it.defaults().elem_size() <= usize::MAX,
            AccessorIter::PureSparse(it) => it.wf(),
        }
    }

    /// Yields the bytes of the next element.
    pub fn next(&mut self) -> (r: Option<&'a [u8]>)
        requires
            old(self).can_advance(),
        ensures
            match *old(self) {
                AccessorIter::Dense(o) => *final(self) matches AccessorIter::Dense(f) && dense_step(o, f, r),
                AccessorIter::Sparse(o) => *final(self) matches AccessorIter::Sparse(f) && sparse_step(o, f, r),
                AccessorIter::PureSparse(o) => *final(self) matches AccessorIter::PureSparse(f)
                    && pure_sparse_step(o, f, r),
            },
    {
        match self {
            AccessorIter::Dense(it) => it.next(),
            AccessorIter::Sparse(it) => it.next(),
            AccessorIter::PureSparse(it) => it.next(),
        }
    }
}

/// Creates the iterator over a dense run of `count` elements of `elem_size` bytes.
pub fn dense_iter_unchecked<'a>(
    buffer_view: usize,
    byte_offset: usize,
    count: usize,
    elem_size: usize,
    buffer_views: &[BufferView],
    buffers: &'a [Buffer],
) -> (r: Result<DenseAccessorIter<'a>, AccessorError>)
    requires
        views_wf(buffer_views@),
        elem_size > 0,
        buffer_view < buffer_views@.len() ==> count >= 1 && byte_offset + (count - 1) * stride_in(
            buffer_views@,
            buffer_view,
            elem_size,
        ) + elem_size <= usize::MAX,
    ensures
        match dense_bytes(buffer_views@, buffers@, buffer_view, byte_offset, count, elem_size) {
            Ok((b, stride)) => r matches Ok(it) && it.data() == b && it.position() == 0
                && it.stride() == stride && it.elem_size() == elem_size && it.wf(),
            Err(e) => r is Err && r == Err::<DenseAccessorIter, AccessorError>(e),
        },
{
    if buffer_view >= buffer_views.len() {
        return Err(AccessorError::BufferViewOutOfRange(buffer_view));
    }
    let view = &buffer_views[buffer_view];
    assert(buffer_views@[buffer_view as int].wf());
    let byte_stride = match view.byte_stride() {
        Some(s) => s,
        None => elem_size,
    };
    let start = byte_offset;
    proof {
        assert((count - 1) * byte_stride >= 0) by (nonlinear_arith)
            requires
                count >= 1,
        ;
    }
    let end = start + (count - 1) * byte_stride + elem_size;
    let bytes = view_range(buffer_views, buffers, ViewRole::Data, buffer_view, start, end)?;
    Ok(DenseAccessorIter { bytes, next: 0, byte_stride, elem_size })
}

/// Reads the sparse indices and the bytes of the sparse values.
pub fn sparse_iter_unchecked<'a>(
    sparse: &SparseAccessor,
    elem_size: usize,
    buffer_views: &[BufferView],
    buffers: &'a [Buffer],
) -> (r: Result<(Vec<usize>, &'a [u8]), AccessorError>)
    requires
        views_wf(buffer_views@),
        sparse.indices.buffer_view < buffer_views@.len() ==> sparse.indices.byte_offset
            + sparse.count * index_size(sparse.indices.component_type) <= usize::MAX,
        range_in_view(
            buffer_views@,
            buffers@,
            ViewRole::SparseIndices,
            sparse.indices.buffer_view,
            sparse.indices.byte_offset as int,
            sparse.indices.byte_offset + sparse.count * index_size(sparse.indices.component_type),
        ) is Ok ==> sparse.values.byte_offset + sparse.count * elem_size <= usize::MAX,
    ensures
        match sparse_parts(*sparse, elem_size, buffer_views@, buffers@) {
            Ok((indices, values)) => r matches Ok((i, v)) && i@ == indices && v@ == values
                && i@.len() == sparse.count && v@.len() == sparse.count * elem_size,
            Err(e) => r is Err && r == Err::<(Vec<usize>, &[u8]), AccessorError>(e),
        },
{
    let isize = sparse.indices.component_type.size();
    if sparse.indices.buffer_view >= buffer_views.len() {
        return Err(AccessorError::SparseIndicesViewOutOfRange(sparse.indices.buffer_view));
    }
    let istart = sparse.indices.byte_offset;
    proof {
        assert(sparse.count * isize >= 0) by (nonlinear_arith);
    }
    let iend = istart + sparse.count * isize;
    let index_bytes = view_range(
        buffer_views,
        buffers,
        ViewRole::SparseIndices,
        sparse.indices.buffer_view,
        istart,
        iend,
    )?;
    proof {
        assert(sparse.count * elem_size >= 0) by (nonlinear_arith);
    }
    let vstart = sparse.values.byte_offset;
    let vend = vstart + sparse.count * elem_size;
    let values = view_range(
        buffer_views,
        buffers,
        ViewRole::SparseValues,
        sparse.values.buffer_view,
        vstart,
        vend,
    )?;
    let indices = decode_indices(index_bytes, isize, sparse.count);
    proof {
        assert((index_bytes@.len() as int) / (isize as int) == sparse.count) by (nonlinear_arith)
            requires
                index_bytes@.len() == sparse.count * isize,
                isize > 0,
        ;
    }
    Ok((indices, values))
}

impl Accessor {
    /// The conditions under which reading the accessor does not overflow: the end
    /// of every byte range that is computed fits in memory, and a dense run holds
    /// at least one element.
    pub open spec fn ranges_fit(
        &self,
        elem_size: usize,
        buffer_views: Seq<BufferView>,
        buffers: Seq<Buffer>,
    ) -> bool {
        &&& self.sparse matches Some(sparse) ==> {
            &&& sparse.indices.buffer_view < buffer_views.len() ==> sparse.indices.byte_offset
                + sparse.count * index_size(sparse.indices.component_type) <= usize::MAX
            &&& range_in_view(
                buffer_views,
                buffers,
                ViewRole::SparseIndices,
                sparse.indices.buffer_view,
                sparse.indices.byte_offset as int,
                sparse.indices.byte_offset + sparse.count * index_size(
                    sparse.indices.component_type,
                ),
            ) is Ok ==> sparse.values.byte_offset + sparse.count * elem_size <= usize::MAX
        }
        &&& (self.buffer_view matches Some(bv) && bv < buffer_views.len() && (self.sparse is None
            || sparse_parts(self.sparse.unwrap(), elem_size, buffer_views, buffers) is Ok))
            ==> self.count >= 1 && self.byte_offset + (self.count - 1) * stride_in(
            buffer_views,
            self.buffer_view.unwrap(),
            elem_size,
        ) + elem_size <= usize::MAX
    }

    /// The iterator over the accessor's elements of `elem_size` bytes, dense or
    /// sparse; `default_value` is the element of a sparse accessor without data.
    pub fn iter_unchecked<'a>(
        &'a self,
        elem_size: usize,
        default_value: &'a [u8],
        buffer_views: &[BufferView],
        buffers: &'a [Buffer],
    ) -> (r: Result<AccessorIter<'a>, AccessorError>)
        requires
            views_wf(buffer_views@),
            elem_size > 0,
            default_value@.len() == elem_size,
            self.ranges_fit(elem_size, buffer_views@, buffers@),
        ensures
            match self.sparse {
                None => match self.buffer_view {
                    None => r == Err::<AccessorIter, AccessorError>(
                        AccessorError::BufferViewUndefined,
                    ),
                    Some(bv) => match dense_bytes(
                        buffer_views@,
                        buffers@,
                        bv,
                        self.byte_offset,
                        self.count,
                        elem_size,
                    ) {
                        Ok((b, stride)) => r matches Ok(AccessorIter::Dense(it)) && it.data() == b
                            && it.position() == 0 && it.stride() == stride && it.elem_size()
                            == elem_size && it.wf(),
                        Err(e) => r == Err::<AccessorIter, AccessorError>(e),
                    },
                },
                Some(sparse) => match sparse_parts(sparse, elem_size, buffer_views@, buffers@) {
                    Err(e) => r == Err::<AccessorIter, AccessorError>(e),
                    Ok((indices, values)) => match self.buffer_view {
                        Some(bv) => match dense_bytes(
                            buffer_views@,
                            buffers@,
                            bv,
                            self.byte_offset,
                            self.count,
                            elem_size,
                        ) {
                            Ok((b, stride)) => r matches Ok(AccessorIter::Sparse(it))
                                && it.defaults().data() == b && it.defaults().position() == 0
                                && it.defaults().stride() == stride && it.defaults().elem_size()
                                == elem_size && it.sparse_indices() == indices
                                && it.sparse_values() == values && it.sparse_position() == 0
                                && it.wf(),
                            Err(e) => r == Err::<AccessorIter, AccessorError>(e),
                        },
                        None => r matches Ok(AccessorIter::PureSparse(it)) && it.default_value()
                            == default_value@ && it.sparse_indices() == indices
                            && it.sparse_values() == values && it.sparse_position() == 0
                            && it.position() == 0 && it.count() == self.count && it.wf(),
                    },
                },
            },
    {
        match &self.sparse {
            Some(sparse) => {
                let (indices, values) = sparse_iter_unchecked(
                    sparse,
                    elem_size,
                    buffer_views,
                    buffers,
                )?;
                match self.buffer_view {
                    Some(buffer_view) => {
                        let default_values = dense_iter_unchecked(
                            buffer_view,
                            self.byte_offset,
                            self.count,
                            elem_size,
                            buffer_views,
                            buffers,
                        )?;
                        Ok(
                            AccessorIter::Sparse(
                                SparseAccessorIter { default_values, indices, values, sparse_pos: 0 },
                            ),
                        )
                    },
                    None => Ok(
                        AccessorIter::PureSparse(
                            PureSparseAccessorIter {
                                default_value,
                                indices,
                                values,
                                sparse_pos: 0,
                                next: 0,
                                count: self.count,
                            },
                        ),
                    ),
                }
            },
            None => {
                let buffer_view = match self.buffer_view {
                    Some(bv) => bv,
                    None => return Err(AccessorError::BufferViewUndefined),
                };
                let it = dense_iter_unchecked(
                    buffer_view,
                    self.byte_offset,
                    self.count,
                    elem_size,
                    buffer_views,
                    buffers,
                )?;
                Ok(AccessorIter::Dense(it))
            },
        }
    }
}

/// A type that can be the index type of sparse accessor storage.
pub trait SparseIndex: Copy {
    /// The index as a position.
    fn as_usize(&self) -> usize;
}

impl SparseIndex for u8 {
    fn as_usize(&self) -> (r: usize)
        ensures
            r == *self as int,
    {
        *self as usize
    }
}

impl SparseIndex for u16 {
    fn as_usize(&self) -> (r: usize)
        ensures
            r == *self as int,
    {
        *self as usize
    }
}

impl SparseIndex for u32 {
    fn as_usize(&self) -> (r: usize)
        ensures
            r == *self as int,
    {
        *self as usize
    }
}

/// Proves that with strictly increasing indices the sparse position stays past
/// exactly the indices below the next element, and that an element takes a
/// sparse value exactly when its index is among the sparse indices, that value
/// being the one stored for it.
pub proof fn law_sparse_substitution(indices: Seq<usize>, i: int, p: int)
    requires
        strictly_increasing(indices),
        sparse_pointer_ok(indices, i, p),
    ensures
        takes_sparse(indices, i, p) <==> exists|k: int| 0 <= k < indices.len() && indices[k] == i,
        sparse_pointer_ok(
            indices,
            i + 1,
            if takes_sparse(indices, i, p) {
                p + 1
            } else {
                p
            },
        ),
{
    if exists|k: int| 0 <= k < indices.len() && indices[k] == i {
        let k = choose|k: int| 0 <= k < indices.len() && indices[k] == i;
        if k < p {
            assert(indices[k] < i);
        } else if k > p {
            assert(indices[p] < indices[k]);
        }
    }
    if p + 1 < indices.len() && takes_sparse(indices, i, p) {
        assert(indices[p] < indices[p + 1]);
    }
}

/// Proves that before the first element the sparse position starts at the first index.
pub proof fn law_sparse_start(indices: Seq<usize>)
    ensures
        sparse_pointer_ok(indices, 0, 0),
{
}

} // verus!
