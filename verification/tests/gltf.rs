use storm::gltf::accessor::{
    Accessor, AccessorComponentType, AccessorError, AccessorIter, AccessorType, SparseAccessor,
    SparseAccessorComponentType, SparseAccessorIndices, SparseAccessorValues,
};
use storm::gltf::buffer::{Buffer, BufferTooShortError, BufferView, BufferViewError, BufferViewTarget};
use storm::gltf::glb::{
    glb_body, is_glb, read_bin_chunk, read_json_chunk, read_u32_le, GlbChunk, GlbError,
    GlbReadError, BIN, GLTF, JSON,
};
use storm::gltf::image::{data_url_source, image_source, DataUrlFault, DataUrlParts, ImageError, ImageSource};
use storm::gltf::scene::{check_index, node_load_order, resolve_joints, AccessorUsage, GltfEntity, InvalidIndexError, NodeOrderError};
use storm::gltf::texture::{
    buffer_view_image_format, sampler_filters, wrapping_mode_to_address_mode, AddressMode,
    FilterMode, ImageFormat, ImageMimeType, MagFilter, MimeTypeMissingError, MinFilter,
    WrappingMode,
};
use storm::Id;

fn word(w: u32) -> [u8; 4] {
    w.to_le_bytes()
}

/// A container with a JSON chunk of `json` and, if given, a binary chunk.
fn container(json: &[u8], bin: Option<&[u8]>) -> Vec<u8> {
    let mut body = Vec::new();
    body.extend_from_slice(&word(json.len() as u32));
    body.extend_from_slice(&word(JSON));
    body.extend_from_slice(json);
    if let Some(bin) = bin {
        body.extend_from_slice(&word(bin.len() as u32));
        body.extend_from_slice(&word(BIN));
        body.extend_from_slice(bin);
    }
    let mut out = Vec::new();
    out.extend_from_slice(&word(GLTF));
    out.extend_from_slice(&word(2));
    out.extend_from_slice(&word((12 + body.len()) as u32));
    out.extend_from_slice(&body);
    out
}

#[test]
fn glb_magic_word() {
    assert_eq!(&word(GLTF), b"glTF");
    assert_eq!(&word(JSON), b"JSON");
    assert_eq!(&word(BIN), b"BIN\0");
    assert_eq!(is_glb(b"glTF\x02\0\0\0"), Ok(true));
    assert_eq!(is_glb(b"{\"asset\": {}}"), Ok(false));
    assert_eq!(is_glb(b"glT"), Err(GlbReadError::UnexpectedEnd));
}

#[test]
fn read_word_little_endian() {
    let bytes = [1u8, 2, 3, 4, 5];
    assert_eq!(read_u32_le(&bytes, 0), Some(0x04030201));
    assert_eq!(read_u32_le(&bytes, 1), Some(0x05040302));
    assert_eq!(read_u32_le(&bytes, 2), None);
    assert_eq!(read_u32_le(&bytes, 9), None);
}

#[test]
fn glb_round_trip() {
    let json = b"{}  ";
    let bin = [7u8, 8, 9, 10];
    let data = container(json, Some(&bin));
    assert_eq!(is_glb(&data), Ok(true));
    let body = glb_body(&data).unwrap();
    assert_eq!(body.len(), data.len() - 12);
    let (chunk, next) = read_json_chunk(&body).unwrap();
    assert_eq!(chunk.chunk_type, JSON);
    assert_eq!(chunk.chunk_data, json.to_vec());
    assert_eq!(next, 8 + json.len());
    let bin_chunk = read_bin_chunk(&body, next).unwrap();
    assert_eq!(bin_chunk.chunk_type, BIN);
    assert_eq!(bin_chunk.chunk_data, bin.to_vec());
}

#[test]
fn glb_without_bin_chunk() {
    let data = container(b"{}  ", None);
    let body = glb_body(&data).unwrap();
    let (_, next) = read_json_chunk(&body).unwrap();
    assert_eq!(read_bin_chunk(&body, next).err(), Some(GlbReadError::UnexpectedEnd));
}

#[test]
fn glb_body_cut_at_declared_length() {
    let mut data = container(b"{}  ", None);
    let declared = data.len();
    data.extend_from_slice(&[0xAA; 5]);
    let body = glb_body(&data).unwrap();
    assert_eq!(body, data[12..declared].to_vec());
}

#[test]
fn glb_errors() {
    let mut data = container(b"{}  ", None);
    data[4] = 1;
    assert_eq!(glb_body(&data).err(), Some(GlbReadError::Glb(GlbError::UnknownVersion)));
    assert_eq!(glb_body(b"glTF\x02\0\0").err(), Some(GlbReadError::UnexpectedEnd));
    assert_eq!(glb_body(b"glTF\x02\0\0\0\x20\0").err(), Some(GlbReadError::UnexpectedEnd));

    // A first chunk that is not JSON.
    let mut body = Vec::new();
    body.extend_from_slice(&word(4));
    body.extend_from_slice(&word(BIN));
    body.extend_from_slice(&[0; 4]);
    assert_eq!(read_json_chunk(&body).err(), Some(GlbReadError::Glb(GlbError::JsonChunkMissing)));

    // A second chunk that is not binary.
    let mut body = Vec::new();
    for _ in 0..2 {
        body.extend_from_slice(&word(4));
        body.extend_from_slice(&word(JSON));
        body.extend_from_slice(b"{}  ");
    }
    let (_, next) = read_json_chunk(&body).unwrap();
    assert_eq!(read_bin_chunk(&body, next).err(), Some(GlbReadError::Glb(GlbError::BinChunkMissing)));

    // A chunk longer than the data.
    let mut body = Vec::new();
    body.extend_from_slice(&word(10));
    body.extend_from_slice(&word(JSON));
    body.extend_from_slice(b"{}");
    assert_eq!(
        GlbChunk::from_bytes(&body, 0).err(),
        Some(GlbReadError::Glb(GlbError::InvalidChunkLength))
    );
    assert_eq!(GlbChunk::from_bytes(&body[..6], 0).err(), Some(GlbReadError::UnexpectedEnd));
}

#[test]
fn glb_error_messages() {
    assert_eq!(GlbError::UnknownVersion.message(), "Binary glTF container version should be 2");
    assert_eq!(GlbError::JsonChunkMissing.message(), "A glb asset must have a JSON chunk as first chunk");
    assert_eq!(GlbError::BinChunkMissing.message(), "This glb asset must have a BIN chunk as second chunk");
    assert_eq!(GlbError::InvalidChunkLength.message(), "Invalid chunk length");
}

fn buffer(bytes: Vec<u8>) -> Buffer {
    let byte_length = bytes.len();
    Buffer { bytes, uri: None, byte_length, name: None }
}

fn view(buffer: usize, byte_offset: usize, byte_length: usize, byte_stride: Option<usize>) -> BufferView {
    BufferView {
        buffer,
        byte_offset,
        byte_length,
        byte_stride,
        target: BufferViewTarget::default(),
        name: None,
    }
}

fn accessor(buffer_view: Option<usize>, byte_offset: usize, count: usize, type_: AccessorType) -> Accessor {
    Accessor {
        buffer_view,
        byte_offset,
        component_type: AccessorComponentType::UnsignedByte,
        normalized: false,
        count,
        type_,
        sparse: None,
        name: None,
    }
}

#[test]
fn buffer_length_check() {
    let mut b = buffer(vec![1, 2, 3]);
    assert_eq!(b.check_loaded_length(), Ok(()));
    b.byte_length = 5;
    assert_eq!(b.check_loaded_length(), Err(BufferTooShortError { declared: 5, actual: 3 }));
    b.bytes_mut().extend_from_slice(&[4, 5]);
    assert_eq!(b.check_loaded_length(), Ok(()));
    assert_eq!(b.bytes(), &[1, 2, 3, 4, 5]);
    assert_eq!(b.byte_length(), 5);
    assert!(b.uri().is_none());
}

#[test]
fn buffer_view_bytes() {
    let buffers = vec![buffer((0u8..10).collect())];
    assert_eq!(view(0, 2, 3, None).bytes(&buffers), Ok(&[2u8, 3, 4][..]));
    assert_eq!(view(0, 0, 10, None).bytes(&buffers).map(|b| b.len()), Ok(10));
    assert_eq!(view(1, 0, 1, None).bytes(&buffers), Err(BufferViewError::BufferOutOfRange(1)));
    assert_eq!(view(0, 8, 3, None).bytes(&buffers), Err(BufferViewError::BufferTooShort(0)));
    assert_eq!(view(0, 0, 1, Some(4)).byte_stride(), Some(4));
    assert!(BufferViewTarget::default().is_none());
    assert!(!BufferViewTarget::ArrayBuffer.is_none());
}

#[test]
fn component_and_element_sizes() {
    assert_eq!(AccessorComponentType::Byte.size(), 1);
    assert_eq!(AccessorComponentType::UnsignedShort.size(), 2);
    assert_eq!(AccessorComponentType::Float.size(), 4);
    assert_eq!(AccessorComponentType::UnsignedInt.name(), "unsigned int");
    assert_eq!(AccessorType::Scalar.dim(), 1);
    assert_eq!(AccessorType::Vec3.dim(), 3);
    assert_eq!(AccessorType::Mat2.dim(), 4);
    assert_eq!(AccessorType::Mat3.dim(), 9);
    assert_eq!(AccessorType::Mat4.dim(), 16);
    assert_eq!(AccessorType::Vec2.name(), "vec2");
    assert_eq!(SparseAccessorComponentType::UnsignedByte.size(), 1);
    assert_eq!(SparseAccessorComponentType::UnsignedShort.size(), 2);
    assert_eq!(SparseAccessorComponentType::UnsignedInt.size(), 4);
}

#[test]
fn packed_accessor_bytes() {
    let buffers = vec![buffer((0u8..16).collect())];
    let views = vec![view(0, 4, 12, None), view(0, 0, 16, Some(4)), view(0, 0, 4, None)];
    let acc = accessor(Some(0), 2, 3, AccessorType::Vec2);
    assert_eq!(acc.count(), 3);
    assert_eq!(acc.type_(), AccessorType::Vec2);
    assert_eq!(acc.component_type(), AccessorComponentType::UnsignedByte);
    assert!(!acc.normalized());
    assert_eq!(acc.bytes_dense_tighly_packed(&views, &buffers), Ok(&[6u8, 7, 8, 9, 10, 11][..]));

    let strided = accessor(Some(1), 0, 2, AccessorType::Vec2);
    assert_eq!(strided.bytes_dense_tighly_packed(&views, &buffers), Err(AccessorError::NotTightlyPacked));
    let aligned = accessor(Some(1), 0, 2, AccessorType::Vec4);
    assert_eq!(aligned.bytes_dense_tighly_packed(&views, &buffers).map(|b| b.len()), Ok(8));

    let missing = accessor(None, 0, 1, AccessorType::Scalar);
    assert_eq!(missing.bytes_dense_tighly_packed(&views, &buffers), Err(AccessorError::BufferViewUndefined));
    let out_of_range = accessor(Some(7), 0, 1, AccessorType::Scalar);
    assert_eq!(
        out_of_range.bytes_dense_tighly_packed(&views, &buffers),
        Err(AccessorError::BufferViewOutOfRange(7))
    );
    let too_long = accessor(Some(2), 0, 2, AccessorType::Vec3);
    assert_eq!(too_long.bytes_dense_tighly_packed(&views, &buffers), Err(AccessorError::ViewTooShort(2)));

    let bad_views = vec![view(3, 0, 4, None)];
    let acc = accessor(Some(0), 0, 1, AccessorType::Scalar);
    assert_eq!(
        acc.bytes_dense_tighly_packed(&bad_views, &buffers),
        Err(AccessorError::ViewUnavailable(0, BufferViewError::BufferOutOfRange(3)))
    );
}

fn collect(mut it: AccessorIter<'_>) -> Vec<Vec<u8>> {
    let mut out = Vec::new();
    while let Some(e) = it.next() {
        out.push(e.to_vec());
    }
    out
}

#[test]
fn dense_iteration_with_stride() {
    let buffers = vec![buffer((0u8..16).collect())];
    let views = vec![view(0, 0, 16, Some(4))];
    let acc = accessor(Some(0), 1, 4, AccessorType::Vec2);
    let it = acc.iter_unchecked(2, &[0, 0], &views, &buffers).unwrap();
    assert_eq!(collect(it), vec![vec![1, 2], vec![5, 6], vec![9, 10], vec![13, 14]]);
}

#[test]
fn dense_iteration_errors() {
    let buffers = vec![buffer((0u8..8).collect())];
    let views = vec![view(0, 0, 8, None)];
    let acc = accessor(Some(0), 0, 5, AccessorType::Vec2);
    assert_eq!(acc.iter_unchecked(2, &[0, 0], &views, &buffers).err(), Some(AccessorError::ViewTooShort(0)));
    let acc = accessor(None, 0, 1, AccessorType::Scalar);
    assert_eq!(acc.iter_unchecked(1, &[0], &views, &buffers).err(), Some(AccessorError::BufferViewUndefined));
    let acc = accessor(Some(4), 0, 1, AccessorType::Scalar);
    assert_eq!(acc.iter_unchecked(1, &[0], &views, &buffers).err(), Some(AccessorError::BufferViewOutOfRange(4)));
}

fn sparse(count: usize, indices_view: usize, component_type: SparseAccessorComponentType, values_view: usize) -> SparseAccessor {
    SparseAccessor {
        count,
        indices: SparseAccessorIndices { buffer_view: indices_view, byte_offset: 0, component_type },
        values: SparseAccessorValues { buffer_view: values_view, byte_offset: 0 },
    }
}

#[test]
fn sparse_over_dense_iteration() {
    // Defaults 0..4, indices 1 and 3 (u16), values 10 and 30.
    let buffers = vec![buffer(vec![0, 1, 2, 3]), buffer(vec![1, 0, 3, 0]), buffer(vec![10, 30])];
    let views = vec![view(0, 0, 4, None), view(1, 0, 4, None), view(2, 0, 2, None)];
    let mut acc = accessor(Some(0), 0, 4, AccessorType::Scalar);
    acc.sparse = Some(sparse(2, 1, SparseAccessorComponentType::UnsignedShort, 2));
    assert_eq!(acc.bytes_dense_tighly_packed(&views, &buffers), Err(AccessorError::Sparse));
    let it = acc.iter_unchecked(1, &[0], &views, &buffers).unwrap();
    assert_eq!(collect(it), vec![vec![0], vec![10], vec![2], vec![30]]);
}

#[test]
fn pure_sparse_iteration() {
    // No defaults: every element is `[9]` except those at indices 0 and 2 (u32).
    let buffers = vec![buffer(vec![0, 0, 0, 0, 2, 0, 0, 0]), buffer(vec![5, 7])];
    let views = vec![view(0, 0, 8, None), view(1, 0, 2, None)];
    let mut acc = accessor(None, 0, 4, AccessorType::Scalar);
    acc.sparse = Some(sparse(2, 0, SparseAccessorComponentType::UnsignedInt, 1));
    let it = acc.iter_unchecked(1, &[9], &views, &buffers).unwrap();
    assert_eq!(collect(it), vec![vec![5], vec![9], vec![7], vec![9]]);
}

#[test]
fn sparse_iteration_errors() {
    let buffers = vec![buffer(vec![0, 1, 2, 3]), buffer(vec![1])];
    let views = vec![view(0, 0, 4, None), view(1, 0, 1, None)];
    let mut acc = accessor(Some(0), 0, 4, AccessorType::Scalar);
    acc.sparse = Some(sparse(1, 5, SparseAccessorComponentType::UnsignedByte, 1));
    assert_eq!(
        acc.iter_unchecked(1, &[0], &views, &buffers).err(),
        Some(AccessorError::SparseIndicesViewOutOfRange(5))
    );
    acc.sparse = Some(sparse(1, 1, SparseAccessorComponentType::UnsignedByte, 6));
    assert_eq!(
        acc.iter_unchecked(1, &[0], &views, &buffers).err(),
        Some(AccessorError::SparseValuesViewOutOfRange(6))
    );
    acc.sparse = Some(sparse(2, 1, SparseAccessorComponentType::UnsignedByte, 0));
    assert_eq!(
        acc.iter_unchecked(1, &[0], &views, &buffers).err(),
        Some(AccessorError::SparseIndicesTooShort(1))
    );
    acc.sparse = Some(sparse(1, 0, SparseAccessorComponentType::UnsignedInt, 1));
    acc.sparse.as_mut().unwrap().values.byte_offset = 1;
    assert_eq!(
        acc.iter_unchecked(1, &[0], &views, &buffers).err(),
        Some(AccessorError::SparseValuesTooShort(1))
    );
}

#[test]
fn image_formats() {
    assert_eq!(buffer_view_image_format(ImageMimeType::ImagePng), Ok(ImageFormat::Png));
    assert_eq!(buffer_view_image_format(ImageMimeType::ImageJpeg), Ok(ImageFormat::Jpeg));
    assert_eq!(buffer_view_image_format(ImageMimeType::Unset), Err(MimeTypeMissingError));
    assert!(ImageMimeType::Unset.is_none());
    assert!(!ImageMimeType::ImagePng.is_none());
}

#[test]
fn sampler_filter_modes() {
    assert_eq!(sampler_filters(MagFilter::Unset, MinFilter::Unset), (FilterMode::Nearest, FilterMode::Nearest, FilterMode::Nearest));
    assert_eq!(sampler_filters(MagFilter::Linear, MinFilter::Linear), (FilterMode::Linear, FilterMode::Linear, FilterMode::Nearest));
    assert_eq!(sampler_filters(MagFilter::Nearest, MinFilter::LinearMipmapLinear), (FilterMode::Nearest, FilterMode::Linear, FilterMode::Linear));
    assert_eq!(sampler_filters(MagFilter::Linear, MinFilter::LinearMipmapNearest), (FilterMode::Linear, FilterMode::Linear, FilterMode::Nearest));
    assert_eq!(sampler_filters(MagFilter::Linear, MinFilter::NearestMipmapLinear), (FilterMode::Linear, FilterMode::Nearest, FilterMode::Linear));
    assert_eq!(sampler_filters(MagFilter::Linear, MinFilter::NearestMipmapNearest), (FilterMode::Linear, FilterMode::Nearest, FilterMode::Nearest));
    assert!(MagFilter::Unset.is_none());
    assert!(MinFilter::Unset.is_none());
    assert!(!MinFilter::Nearest.is_none());
}

#[test]
fn wrapping_modes() {
    assert_eq!(wrapping_mode_to_address_mode(WrappingMode::ClampToEdge), AddressMode::ClampToEdge);
    assert_eq!(wrapping_mode_to_address_mode(WrappingMode::MirroredRepeat), AddressMode::MirrorRepeat);
    assert_eq!(wrapping_mode_to_address_mode(WrappingMode::Repeat), AddressMode::Repeat);
    assert_eq!(wrapping_mode_to_address_mode(WrappingMode::Unset), AddressMode::Repeat);
    assert!(WrappingMode::Unset.is_none());
}

#[test]
fn index_checks() {
    assert_eq!(check_index(GltfEntity::Scene, 1, 2), Ok(1));
    assert_eq!(
        check_index(GltfEntity::Skin, 2, 2),
        Err(InvalidIndexError { entity: GltfEntity::Skin, index: 2 })
    );
    assert_eq!(GltfEntity::Node.name(), "node");
    assert_eq!(GltfEntity::Scene.name(), "scene");
    assert_eq!(AccessorUsage::Indices.name(), "Primitive indices");
}

struct Node;

#[test]
fn skin_joints() {
    let nodes: Vec<Option<Id<Node>>> = vec![Some(Id::new(4, 0)), None, Some(Id::new(7, 1))];
    let joints = resolve_joints(&[2, 0, 2], &nodes).unwrap();
    assert_eq!(joints.iter().map(|id| (id.sparse, id.version)).collect::<Vec<_>>(), vec![(7, 1), (4, 0), (7, 1)]);
    assert_eq!(
        resolve_joints(&[0, 1, 5], &nodes).err(),
        Some(InvalidIndexError { entity: GltfEntity::Node, index: 1 })
    );
    assert_eq!(
        resolve_joints(&[5], &nodes).err(),
        Some(InvalidIndexError { entity: GltfEntity::Node, index: 5 })
    );
    assert!(resolve_joints(&[], &nodes).unwrap().is_empty());
}

fn source(uri: &str) -> Result<ImageSource<'static>, ImageError> {
    image_source(&Some(uri.to_string()), ImageMimeType::Unset, None, &[], &[])
}

#[test]
fn image_from_data_url() {
    match source("data:image/png;base64,AQID") {
        Ok(ImageSource::Embedded(ImageFormat::Png, body)) => assert_eq!(body, vec![1, 2, 3]),
        _ => panic!("expected an embedded png"),
    }
    match source("data:image/jpeg,abc") {
        Ok(ImageSource::Embedded(ImageFormat::Jpeg, body)) => assert_eq!(body, b"abc".to_vec()),
        _ => panic!("expected an embedded jpeg"),
    }
    assert_eq!(
        source("data:image/gif;base64,AA==").err(),
        Some(ImageError::UnsupportedFormat { type_: "image".to_string(), subtype: "gif".to_string() })
    );
    assert_eq!(source("data:image/png").err(), Some(ImageError::InvalidDataUrl));
    assert_eq!(source("data:image/png;base64,A").err(), Some(ImageError::InvalidBase64));
}

#[test]
fn image_from_file_uri() {
    match source("textures/wood.png") {
        Ok(ImageSource::File(path)) => assert_eq!(path, "textures/wood.png"),
        _ => panic!("expected a file path"),
    }
}

#[test]
fn image_from_data_url_parts() {
    let parts = DataUrlParts { mime_type: "image".to_string(), mime_subtype: "png".to_string(), body: None };
    assert_eq!(data_url_source("data:image/png;base64,A", Ok(parts)).err(), Some(ImageError::InvalidBase64));
    let parts = DataUrlParts {
        mime_type: "text".to_string(),
        mime_subtype: "png".to_string(),
        body: Some(vec![1]),
    };
    assert_eq!(
        data_url_source("data:text/png,a", Ok(parts)).err(),
        Some(ImageError::UnsupportedFormat { type_: "text".to_string(), subtype: "png".to_string() })
    );
    assert_eq!(data_url_source("data:", Err(DataUrlFault::NoComma)).err(), Some(ImageError::InvalidDataUrl));
    match data_url_source("a.jpg", Err(DataUrlFault::NotADataUrl)) {
        Ok(ImageSource::File(path)) => assert_eq!(path, "a.jpg"),
        _ => panic!("expected a file path"),
    }
}

#[test]
fn image_from_buffer_view() {
    let buffers = vec![buffer((0u8..8).collect())];
    let views = vec![view(0, 2, 4, None), view(1, 0, 4, None)];
    match image_source(&None, ImageMimeType::ImageJpeg, Some(0), &views, &buffers) {
        Ok(ImageSource::BufferView(ImageFormat::Jpeg, bytes)) => assert_eq!(bytes, &[2, 3, 4, 5]),
        _ => panic!("expected the bytes of view 0"),
    }
    assert_eq!(
        image_source(&None, ImageMimeType::ImagePng, None, &views, &buffers).err(),
        Some(ImageError::SourceUndefined)
    );
    assert_eq!(
        image_source(&None, ImageMimeType::Unset, Some(0), &views, &buffers).err(),
        Some(ImageError::MimeTypeMissing)
    );
    assert_eq!(
        image_source(&None, ImageMimeType::ImagePng, Some(2), &views, &buffers).err(),
        Some(ImageError::BufferViewOutOfRange(2))
    );
    assert_eq!(
        image_source(&None, ImageMimeType::ImagePng, Some(1), &views, &buffers).err(),
        Some(ImageError::BufferView(1, BufferViewError::BufferOutOfRange(1)))
    );
}

#[test]
fn nodes_load_in_preorder_with_parents() {
    let children = vec![vec![1, 2], vec![3], vec![], vec![]];
    assert_eq!(
        node_load_order(&children, &[0], 5),
        (vec![(0, None), (1, Some(0)), (3, Some(1)), (2, Some(0))], None)
    );
    assert_eq!(
        node_load_order(&children, &[2, 1], 5),
        (vec![(2, None), (1, None), (3, Some(1))], None)
    );
}

#[test]
fn node_loading_stops_at_bad_index_or_depth() {
    let children = vec![vec![1, 7, 2], vec![], vec![]];
    assert_eq!(
        node_load_order(&children, &[0], 5),
        (
            vec![(0, None), (1, Some(0))],
            Some(NodeOrderError::InvalidIndex(InvalidIndexError { entity: GltfEntity::Node, index: 7 }))
        )
    );
    let cyclic = vec![vec![1], vec![0]];
    let (visited, stopped) = node_load_order(&cyclic, &[0], 3);
    assert_eq!(visited, vec![(0, None), (1, Some(0)), (0, Some(1))]);
    assert_eq!(stopped, Some(NodeOrderError::TooDeep));
}
