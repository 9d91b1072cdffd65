use vstd::prelude::*;

verus! {

/// Size of the binary glTF header: magic, version and total length.
pub const GLB_HEADER_SIZE: u32 = 12;

/// `glTF` in ASCII, read as a little-endian word.
pub const GLTF: u32 = 0x46546C67;

/// Type of the JSON chunk: `JSON` in ASCII.
pub const JSON: u32 = 0x4E4F534A;

/// Type of the binary chunk: `BIN\0` in ASCII.
pub const BIN: u32 = 0x004E4942;

/// Ways in which a binary glTF container is malformed.
#[derive(Debug, Clone, Copy, PartialEq, Eq, Structural)]
pub enum GlbError {
    UnknownVersion,
    JsonChunkMissing,
    BinChunkMissing,
    InvalidChunkLength,
}

impl GlbError {
    /// The message shown for the error.
    pub fn message(&self) -> (r: &'static str)
        ensures
            r@ == match *self {
                GlbError::UnknownVersion => "Binary glTF container version should be 2"@,
                GlbError::JsonChunkMissing => "A glb asset must have a JSON chunk as first chunk"@,
                GlbError::BinChunkMissing => "This glb asset must have a BIN chunk as second chunk"@,
                GlbError::InvalidChunkLength => "Invalid chunk length"@,
            },
    {
        match self {
            GlbError::UnknownVersion => "Binary glTF container version should be 2",
            GlbError::JsonChunkMissing => "A glb asset must have a JSON chunk as first chunk",
            GlbError::BinChunkMissing => "This glb asset must have a BIN chunk as second chunk",
            GlbError::InvalidChunkLength => "Invalid chunk length",
        }
    }
}

/// Why reading a binary glTF container failed: the container is malformed, or the
/// data ended before a word that had to be read whole.
#[derive(Debug, Clone, Copy, PartialEq, Eq, Structural)]
pub enum GlbReadError {
    Glb(GlbError),
    UnexpectedEnd,
}

/// The little-endian word stored at `pos`.
pub open spec fn le_u32(s: Seq<u8>, pos: int) -> int {
    s[pos] as int + 256 * (s[pos + 1] as int) + 65536 * (s[pos + 2] as int) + 16777216 * (s[pos
        + 3] as int)
}

/// The word at `pos`, if four bytes are there.
pub open spec fn word_at(s: Seq<u8>, pos: int) -> Option<u32> {
    if 0 <= pos && pos + 4 <= s.len() {
        Some(le_u32(s, pos) as u32)
    } else {
        None
    }
}

/// Reads the little-endian word at `pos`; `None` when fewer than four bytes remain.
pub fn read_u32_le(bytes: &[u8], pos: usize) -> (r: Option<u32>)
    ensures
        r == word_at(bytes@, pos as int),
        r matches Some(w) ==> w as int == le_u32(bytes@, pos as int),
{
    if pos <= bytes.len() && bytes.len() - pos >= 4 {
        let b0 = bytes[pos] as u32;
        let b1 = bytes[pos + 1] as u32;
        let b2 = bytes[pos + 2] as u32;
        let b3 = bytes[pos + 3] as u32;
        assert(b0 + 256 * b1 + 65536 * b2 + 16777216 * b3 <= u32::MAX) by (nonlinear_arith)
            requires
                b0 < 256,
                b1 < 256,
                b2 < 256,
                b3 < 256,
        ;
        Some(b0 + 256 * b1 + 65536 * b2 + 16777216 * b3)
    } else {
        None
    }
}

/// Whether the data starts with the binary glTF magic word; the data must hold
/// at least that word.
pub fn is_glb(bytes: &[u8]) -> (r: Result<bool, GlbReadError>)
    ensures
        bytes@.len() < 4 ==> r == Err::<bool, GlbReadError>(GlbReadError::UnexpectedEnd),
        bytes@.len() >= 4 ==> r == Ok::<bool, GlbReadError>(le_u32(bytes@, 0) == GLTF),
{
    match read_u32_le(bytes, 0) {
        Some(magic) => Ok(magic == GLTF),
        None => Err(GlbReadError::UnexpectedEnd),
    }
}

/// The declared total length of a container whose version word is readable
/// and equal to 2, if its length word is readable too.
pub open spec fn declared_length(s: Seq<u8>) -> Option<u32> {
    if word_at(s, 4) == Some(2u32) {
        word_at(s, 8)
    } else {
        None
    }
}

/// The bytes after the header that the declared length covers: the rest of the
/// data, cut at the declared length.
pub open spec fn body_of(s: Seq<u8>, length: int) -> Seq<u8> {
    if length < s.len() {
        s.subrange(12, length)
    } else {
        s.subrange(12, s.len() as int)
    }
}

/// Checks the version word of a binary container (after the magic word) and
/// returns the bytes that the length word says the chunks occupy. A declared
/// length shorter than the header is not accepted.
pub fn glb_body(bytes: &[u8]) -> (r: Result<Vec<u8>, GlbReadError>)
    requires
        declared_length(bytes@) matches Some(length) ==> length >= GLB_HEADER_SIZE,
    ensures
        word_at(bytes@, 4) is None ==> r == Err::<Vec<u8>, GlbReadError>(
            GlbReadError::UnexpectedEnd,
        ),
        word_at(bytes@, 4) matches Some(v) && v != 2 ==> r == Err::<Vec<u8>, GlbReadError>(
            GlbReadError::Glb(GlbError::UnknownVersion),
        ),
        word_at(bytes@, 4) == Some(2u32) && word_at(bytes@, 8) is None ==> r == Err::<
            Vec<u8>,
            GlbReadError,
        >(GlbReadError::UnexpectedEnd),
        declared_length(bytes@) matches Some(length) ==> r matches Ok(body) && body@ == body_of(
            bytes@,
            length as int,
        ),
{
    let version = match read_u32_le(bytes, 4) {
        Some(v) => v,
        None => return Err(GlbReadError::UnexpectedEnd),
    };
    if version != 2 {
        return Err(GlbReadError::Glb(GlbError::UnknownVersion));
    }
    let length = match read_u32_le(bytes, 8) {
        Some(l) => l,
        None => return Err(GlbReadError::UnexpectedEnd),
    };
    let end: usize = if (length as usize) < bytes.len() {
        length as usize
    } else {
        bytes.len()
    };
    let mut body: Vec<u8> = Vec::new();
    let mut i: usize = 12;
    while i < end
        invariant
            12 <= end <= bytes@.len(),
            12 <= i <= end,
            body@ == bytes@.subrange(12, i as int),
        decreases end - i,
    {
        body.push(bytes[i]);
        i = i + 1;
        proof {
            assert(body@ == bytes@.subrange(12, i as int));
        }
    }
    Ok(body)
}

/// A chunk of a binary glTF container.
pub struct GlbChunk {
    pub chunk_type: u32,
    pub chunk_data: Vec<u8>,
}

/// The outcome of reading a chunk at `pos`: its type, data and the position
/// after it, or why it cannot be read.
pub open spec fn chunk_at(s: Seq<u8>, pos: int) -> Result<(u32, Seq<u8>, int), GlbReadError> {
    match (word_at(s, pos), word_at(s, pos + 4)) {
        (Some(length), Some(chunk_type)) => {
            if pos + 8 + length <= s.len() {
                Ok((chunk_type, s.subrange(pos + 8, pos + 8 + length), pos + 8 + length))
            } else {
                Err(GlbReadError::Glb(GlbError::InvalidChunkLength))
            }
        },
        _ => Err(GlbReadError::UnexpectedEnd),
    }
}

impl GlbChunk {
    /// Reads the chunk that starts at `pos` of `stream`: its length word, its type
    /// word and as many data bytes as the length says. Data cut short by the end
    /// of the stream is an invalid chunk length.
    pub fn from_bytes(stream: &[u8], pos: usize) -> (r: Result<(GlbChunk, usize), GlbReadError>)
        ensures
            match chunk_at(stream@, pos as int) {
                Ok((t, data, next)) => r matches Ok((chunk, n)) && chunk.chunk_type == t
                    && chunk.chunk_data@ == data && n == next,
                Err(e) => r == Err::<(GlbChunk, usize), GlbReadError>(e),
            },
    {
        let length = match read_u32_le(stream, pos) {
            Some(l) => l,
            None => return Err(GlbReadError::UnexpectedEnd),
        };
        assert(pos + 4 <= stream@.len());
        if stream.len() - pos < 8 {
            return Err(GlbReadError::UnexpectedEnd);
        }
        let chunk_type = match read_u32_le(stream, pos + 4) {
            Some(t) => t,
            None => return Err(GlbReadError::UnexpectedEnd),
        };
        let start = pos + 8;
        if (length as usize) > stream.len() - start {
            return Err(GlbReadError::Glb(GlbError::InvalidChunkLength));
        }
        let end = start + length as usize;
        let mut chunk_data: Vec<u8> = Vec::with_capacity(length as usize);
        let mut i: usize = start;
        while i < end
            invariant
                start <= i <= end <= stream@.len(),
                chunk_data@ == stream@.subrange(start as int, i as int),
            decreases end - i,
        {
            chunk_data.push(stream[i]);
            i = i + 1;
            proof {
                assert(chunk_data@ == stream@.subrange(start as int, i as int));
            }
        }
        Ok((GlbChunk { chunk_type, chunk_data }, end))
    }
}

/// Reads the first chunk of a container body, which must be the JSON chunk.
pub fn read_json_chunk(body: &[u8]) -> (r: Result<(GlbChunk, usize), GlbReadError>)
    ensures
        match chunk_at(body@, 0) {
            Ok((t, data, next)) => if t == JSON {
                r matches Ok((chunk, n)) && chunk.chunk_type == t && chunk.chunk_data@ == data && n
                    == next
            } else {
                r == Err::<(GlbChunk, usize), GlbReadError>(
                    GlbReadError::Glb(GlbError::JsonChunkMissing),
                )
            },
            Err(e) => r == Err::<(GlbChunk, usize), GlbReadError>(e),
        },
{
    let (chunk, next) = GlbChunk::from_bytes(body, 0)?;
    if chunk.chunk_type != JSON {
        return Err(GlbReadError::Glb(GlbError::JsonChunkMissing));
    }
    Ok((chunk, next))
}

/// Reads the chunk at `pos` of a container body, which must be the binary chunk.
pub fn read_bin_chunk(body: &[u8], pos: usize) -> (r: Result<GlbChunk, GlbReadError>)
    ensures
        match chunk_at(body@, pos as int) {
            Ok((t, data, next)) => if t == BIN {
                r matches Ok(chunk) && chunk.chunk_type == t && chunk.chunk_data@ == data
            } else {
                r == Err::<GlbChunk, GlbReadError>(GlbReadError::Glb(GlbError::BinChunkMissing))
            },
            Err(e) => r == Err::<GlbChunk, GlbReadError>(e),
        },
{
    let (chunk, _next) = GlbChunk::from_bytes(body, pos)?;
    if chunk.chunk_type != BIN {
        return Err(GlbReadError::Glb(GlbError::BinChunkMissing));
    }
    Ok(chunk)
}

} // verus!
