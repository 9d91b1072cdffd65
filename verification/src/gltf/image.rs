use crate::gltf::accessor::views_wf;
use crate::gltf::buffer::{view_bytes, Buffer, BufferView, BufferViewError};
use crate::gltf::texture::{buffer_view_image_format, ImageFormat, ImageMimeType};
use data_url::{DataUrl, DataUrlError};
use vstd::prelude::*;

verus! {

/// Why a `data:` URL was not processed.
#[derive(Debug, Clone, Copy, PartialEq, Eq, Structural)]
pub enum DataUrlFault {
    /// The URI does not start with the `data:` scheme.
    NotADataUrl,
    /// No comma separates the header from the body.
    NoComma,
}

/// What the logic reads of a processed `data:` URL: its media type and subtype,
/// and its decoded body (`None` when the base64 body is malformed).
pub struct DataUrlParts {
    pub mime_type: String,
    pub mime_subtype: String,
    pub body: Option<Vec<u8>>,
}

/// The parts of a processed `data:` URL as plain values.
pub open spec fn parts_view(parts: Result<DataUrlParts, DataUrlFault>) -> Result<
    (Seq<char>, Seq<char>, Option<Seq<u8>>),
    DataUrlFault,
> {
    match parts {
        Ok(p) => Ok(
            (
                p.mime_type@,
                p.mime_subtype@,
                match p.body {
                    Some(b) => Some(b@),
                    None => None,
                },
            ),
        ),
        Err(e) => Err(e),
    }
}

/// The outcome of processing `uri` as a `data:` URL and decoding its body.
pub uninterp spec fn data_url_parts(uri: Seq<char>) -> Result<
    (Seq<char>, Seq<char>, Option<Seq<u8>>),
    DataUrlFault,
>;

/// Processes `uri` with `data_url::DataUrl::process`; on success reads the
/// `type_` and `subtype` of its `mime_type()` and decodes the body with
/// `decode_to_vec()`, keeping the body and dropping the fragment. The contract
/// claims only that the outcome is a function of `uri` alone.
#[verifier::external_body]
fn process_data_url(uri: &str) -> (r: Result<DataUrlParts, DataUrlFault>)
    ensures
        parts_view(r) == data_url_parts(uri@),
{
    match DataUrl::process(uri) {
        Ok(url) => Ok(
            DataUrlParts {
                mime_type: url.mime_type().type_.clone(),
                mime_subtype: url.mime_type().subtype.clone(),
                body: url.decode_to_vec().ok().map(|(body, _fragment)| body),
            },
        ),
        Err(DataUrlError::NotADataUrl) => Err(DataUrlFault::NotADataUrl),
        Err(DataUrlError::NoComma) => Err(DataUrlFault::NoComma),
    }
}

/// Why the data of an image cannot be had.
#[derive(Debug, PartialEq, Eq)]
pub enum ImageError {
    /// A `data:` URL holds an image of a type other than PNG and JPEG.
    UnsupportedFormat { type_: String, subtype: String },
    /// A `data:` URL without a comma.
    InvalidDataUrl,
    /// A `data:` URL whose base64 body is malformed.
    InvalidBase64,
    /// Neither a URI nor a buffer view is given.
    SourceUndefined,
    /// An image in a buffer view gives no media type.
    MimeTypeMissing,
    /// The image names a buffer view that does not exist.
    BufferViewOutOfRange(usize),
    /// The bytes of the image's buffer view cannot be had.
    BufferView(usize, BufferViewError),
}

/// Where the encoded image comes from.
pub enum ImageSource<'a> {
    /// Embedded in a `data:` URL.
    Embedded(ImageFormat, Vec<u8>),
    /// A file, at this path relative to the asset.
    File(String),
    /// Stored in a buffer view.
    BufferView(ImageFormat, &'a [u8]),
}

/// The source of an image given by `uri`, whose processing as a `data:` URL gave
/// `parts`: a URI that is not a `data:` URL names a file; a `data:` URL must have
/// a comma, a well-formed body and a PNG or JPEG media type.
pub open spec fn data_url_outcome<'a>(
    uri: Seq<char>,
    parts: Result<(Seq<char>, Seq<char>, Option<Seq<u8>>), DataUrlFault>,
    r: Result<ImageSource<'a>, ImageError>,
) -> bool {
    match parts {
        Err(DataUrlFault::NotADataUrl) => r matches Ok(ImageSource::File(path)) && path@ == uri,
        Err(DataUrlFault::NoComma) => r matches Err(ImageError::InvalidDataUrl),
        Ok((t, s, body)) => match body {
            None => r matches Err(ImageError::InvalidBase64),
            Some(b) => if t == "image"@ && s == "png"@ {
                r matches Ok(ImageSource::Embedded(ImageFormat::Png, v)) && v@ == b
            } else if t == "image"@ && s == "jpeg"@ {
                r matches Ok(ImageSource::Embedded(ImageFormat::Jpeg, v)) && v@ == b
            } else {
                r matches Err(ImageError::UnsupportedFormat { type_, subtype }) && type_@ == t
                    && subtype@ == s
            },
        },
    }
}

/// Whether `s` reads `lit`.
fn reads(s: &String, lit: &str) -> (r: bool)
    ensures
        r == (s@ == lit@),
{
    *s == lit.to_owned()
}

/// The source of an image given by `uri`, from the outcome `parts` of processing
/// it as a `data:` URL.
pub fn data_url_source<'a>(uri: &str, parts: Result<DataUrlParts, DataUrlFault>) -> (r: Result<
    ImageSource<'a>,
    ImageError,
>)
    ensures
        data_url_outcome(uri@, parts_view(parts), r),
{
    match parts {
        Err(DataUrlFault::NotADataUrl) => Ok(ImageSource::File(uri.to_owned())),
        Err(DataUrlFault::NoComma) => Err(ImageError::InvalidDataUrl),
        Ok(p) => {
            let body = match p.body {
                Some(b) => b,
                None => return Err(ImageError::InvalidBase64),
            };
            let image = reads(&p.mime_type, "image");
            proof {
                reveal_strlit("image");
                reveal_strlit("png");
                reveal_strlit("jpeg");
            }
            if image && reads(&p.mime_subtype, "png") {
                Ok(ImageSource::Embedded(ImageFormat::Png, body))
            } else if image && reads(&p.mime_subtype, "jpeg") {
                Ok(ImageSource::Embedded(ImageFormat::Jpeg, body))
            } else {
                Err(ImageError::UnsupportedFormat { type_: p.mime_type, subtype: p.mime_subtype })
            }
        },
    }
}

/// Finds the encoded data of an image: from its URI, a `data:` URL or a file path;
/// else from its buffer view, which needs a media type.
pub fn image_source<'a>(
    uri: &Option<String>,
    mime_type: ImageMimeType,
    buffer_view: Option<usize>,
    buffer_views: &[BufferView],
    buffers: &'a [Buffer],
) -> (r: Result<ImageSource<'a>, ImageError>)
    requires
        views_wf(buffer_views@),
    ensures
        match uri {
            Some(u) => data_url_outcome(u@, data_url_parts(u@), r),
            None => match buffer_view {
                None => r == Err::<ImageSource, ImageError>(ImageError::SourceUndefined),
                Some(i) => if mime_type == ImageMimeType::Unset {
                    r == Err::<ImageSource, ImageError>(ImageError::MimeTypeMissing)
                } else if i >= buffer_views@.len() {
                    r == Err::<ImageSource, ImageError>(ImageError::BufferViewOutOfRange(i))
                } else {
                    match view_bytes(buffer_views@[i as int], buffers@) {
                        Ok(b) => r matches Ok(ImageSource::BufferView(f, s)) && s@ == b && f == (
                        if mime_type == ImageMimeType::ImagePng {
                            ImageFormat::Png
                        } else {
                            ImageFormat::Jpeg
                        }),
                        Err(e) => r == Err::<ImageSource, ImageError>(ImageError::BufferView(i, e)),
                    }
                },
            },
        },
{
    match uri {
        Some(u) => {
            let parts = process_data_url(u.as_str());
            data_url_source(u.as_str(), parts)
        },
        None => {
            let index = match buffer_view {
                Some(i) => i,
                None => return Err(ImageError::SourceUndefined),
            };
            let format = match buffer_view_image_format(mime_type) {
                Ok(f) => f,
                Err(_) => return Err(ImageError::MimeTypeMissing),
            };
            if index >= buffer_views.len() {
                return Err(ImageError::BufferViewOutOfRange(index));
            }
            let view = &buffer_views[index];
            assert(buffer_views@[index as int].wf());
            match view.bytes(buffers) {
                Ok(bytes) => Ok(ImageSource::BufferView(format, bytes)),
                Err(e) => Err(ImageError::BufferView(index, e)),
            }
        },
    }
}

} // verus!
