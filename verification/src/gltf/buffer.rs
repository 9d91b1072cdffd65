use vstd::prelude::*;

verus! {

/// A buffer of binary geometry, animation or skin data.
pub struct Buffer {
    /// The content of the buffer. Empty if the uri is unsupported.
    pub bytes: Vec<u8>,
    /// Where the content comes from, when it is not in the container.
    pub uri: Option<String>,
    /// The declared length of the buffer in bytes.
    pub byte_length: usize,
    pub name: Option<String>,
}

/// A loaded buffer holds fewer bytes than it declares.
#[derive(Debug, Clone, Copy, PartialEq, Eq, Structural)]
pub struct BufferTooShortError {
    pub declared: usize,
    pub actual: usize,
}

impl Buffer {
    /// The content of the buffer.
    pub fn bytes(&self) -> (r: &[u8])
        ensures
            r@ == self.bytes@,
    {
        self.bytes.as_slice()
    }

    /// The content of the buffer, for filling.
    pub fn bytes_mut(&mut self) -> (r: &mut Vec<u8>)
        ensures
            *r == old(self).bytes,
            final(self).bytes == *final(r),
            final(self).uri == old(self).uri,
            final(self).byte_length == old(self).byte_length,
            final(self).name == old(self).name,
    {
        &mut self.bytes
    }

    /// The declared length of the buffer in bytes.
    pub fn byte_length(&self) -> (r: usize)
        ensures
            r == self.byte_length,
    {
        self.byte_length
    }

    /// Where the content comes from, when it is not in the container.
    pub fn uri(&self) -> (r: &Option<String>)
        ensures
            *r == self.uri,
    {
        &self.uri
    }

    /// A buffer read from its uri must hold at least the bytes it declares.
    pub fn check_loaded_length(&self) -> (r: Result<(), BufferTooShortError>)
        ensures
            self.bytes@.len() >= self.byte_length ==> r is Ok,
            self.bytes@.len() < self.byte_length ==> r == Err::<(), BufferTooShortError>(
                BufferTooShortError { declared: self.byte_length, actual: self.bytes@.len() as usize },
            ),
    {
        if self.bytes.len() < self.byte_length {
            Err(BufferTooShortError { declared: self.byte_length, actual: self.bytes.len() })
        } else {
            Ok(())
        }
    }
}

/// The intended GPU buffer type of a buffer view.
#[derive(Debug, Clone, Copy, PartialEq, Eq, Structural)]
pub enum BufferViewTarget {
    Unset,
    ArrayBuffer,
    ElementArrayBuffer,
}

impl BufferViewTarget {
    /// Whether no target is given.
    pub fn is_none(&self) -> (r: bool)
        ensures
            r == (*self == BufferViewTarget::Unset),
    {
        match self {
            BufferViewTarget::Unset => true,
            _ => false,
        }
    }
}

impl Default for BufferViewTarget {
    fn default() -> (r: Self)
        ensures
            r == BufferViewTarget::Unset,
    {
        BufferViewTarget::Unset
    }
}

/// Why the bytes of a buffer view cannot be had.
#[derive(Debug, Clone, Copy, PartialEq, Eq, Structural)]
pub enum BufferViewError {
    /// The view names a buffer that does not exist.
    BufferOutOfRange(usize),
    /// The buffer ends before the view does.
    BufferTooShort(usize),
}

/// A view into a buffer, generally a subset of it.
pub struct BufferView {
    /// The index of the buffer.
    pub buffer: usize,
    /// The offset into the buffer in bytes.
    pub byte_offset: usize,
    /// The length of the view in bytes.
    pub byte_length: usize,
    /// The stride between vertex attributes, in bytes; never zero. When it is not
    /// given, data is tightly packed.
    pub byte_stride: Option<usize>,
    pub target: BufferViewTarget,
    pub name: Option<String>,
}

/// The bytes a view covers in the given buffers, or why it covers none.
pub open spec fn view_bytes(view: BufferView, buffers: Seq<Buffer>) -> Result<Seq<u8>, BufferViewError> {
    if view.buffer >= buffers.len() {
        Err(BufferViewError::BufferOutOfRange(view.buffer))
    } else if view.byte_offset + view.byte_length > buffers[view.buffer as int].bytes@.len() {
        Err(BufferViewError::BufferTooShort(view.buffer))
    } else {
        Ok(
            buffers[view.buffer as int].bytes@.subrange(
                view.byte_offset as int,
                view.byte_offset + view.byte_length,
            ),
        )
    }
}

impl BufferView {
    /// A view is well formed when its end fits in memory and its stride is not zero.
    pub open spec fn wf(&self) -> bool {
        &&& self.byte_offset + self.byte_length <= usize::MAX
        &&& self.byte_stride matches Some(s) ==> s > 0
    }

    /// The bytes of the buffer that the view covers.
    pub fn bytes<'a>(&self, buffers: &'a [Buffer]) -> (r: Result<&'a [u8], BufferViewError>)
        requires
            self.byte_offset + self.byte_length <= usize::MAX,
        ensures
            match view_bytes(*self, buffers@) {
                Ok(b) => r matches Ok(s) && s@ == b,
                Err(e) => r == Err::<&[u8], BufferViewError>(e),
            },
    {
        let start = self.byte_offset;
        let end = start + self.byte_length;
        if self.buffer >= buffers.len() {
            return Err(BufferViewError::BufferOutOfRange(self.buffer));
        }
        let bytes = buffers[self.buffer].bytes.as_slice();
        if end > bytes.len() {
            return Err(BufferViewError::BufferTooShort(self.buffer));
        }
        Ok(slice_range(bytes, start, end))
    }

    /// The stride between vertex attributes, if the view gives one.
    pub fn byte_stride(&self) -> (r: Option<usize>)
        ensures
            r == self.byte_stride,
    {
        self.byte_stride
    }
}

/// The part of `s` from `start` to `end`.
pub fn slice_range<'a>(s: &'a [u8], start: usize, end: usize) -> (r: &'a [u8])
    requires
        start <= end <= s@.len(),
    ensures
        r@ == s@.subrange(start as int, end as int),
{
    &s[start..end]
}

} // verus!
