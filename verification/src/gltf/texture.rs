use vstd::prelude::*;

verus! {

/// The media type of an image stored in a buffer view.
#[derive(Debug, Clone, Copy, PartialEq, Eq, Structural)]
pub enum ImageMimeType {
    Unset,
    ImageJpeg,
    ImagePng,
}

impl ImageMimeType {
    /// Whether no media type is given.
    pub fn is_none(&self) -> (r: bool)
        ensures
            r == (*self == ImageMimeType::Unset),
    {
        match self {
            ImageMimeType::Unset => true,
            _ => false,
        }
    }
}

/// An image encoding that textures can be decoded from.
#[derive(Debug, Clone, Copy, PartialEq, Eq, Structural)]
pub enum ImageFormat {
    Png,
    Jpeg,
}

/// An image stored in a buffer view gives no media type.
#[derive(Debug, Clone, Copy, PartialEq, Eq, Structural)]
pub struct MimeTypeMissingError;

/// The encoding of an image stored in a buffer view, which must give its media type.
pub fn buffer_view_image_format(mime_type: ImageMimeType) -> (r: Result<
    ImageFormat,
    MimeTypeMissingError,
>)
    ensures
        mime_type == ImageMimeType::ImageJpeg ==> r == Ok::<ImageFormat, MimeTypeMissingError>(
            ImageFormat::Jpeg,
        ),
        mime_type == ImageMimeType::ImagePng ==> r == Ok::<ImageFormat, MimeTypeMissingError>(
            ImageFormat::Png,
        ),
        mime_type == ImageMimeType::Unset ==> r == Err::<ImageFormat, MimeTypeMissingError>(
            MimeTypeMissingError,
        ),
{
    match mime_type {
        ImageMimeType::ImageJpeg => Ok(ImageFormat::Jpeg),
        ImageMimeType::ImagePng => Ok(ImageFormat::Png),
        ImageMimeType::Unset => Err(MimeTypeMissingError),
    }
}

/// Magnification filter of a sampler.
#[derive(Debug, Clone, Copy, PartialEq, Eq, Structural)]
pub enum MagFilter {
    Unset,
    Nearest,
    Linear,
}

impl MagFilter {
    /// Whether no filter is given.
    pub fn is_none(&self) -> (r: bool)
        ensures
            r == (*self == MagFilter::Unset),
    {
        match self {
            MagFilter::Unset => true,
            _ => false,
        }
    }
}

/// Minification filter of a sampler.
#[derive(Debug, Clone, Copy, PartialEq, Eq, Structural)]
pub enum MinFilter {
    Unset,
    Nearest,
    Linear,
    NearestMipmapNearest,
    LinearMipmapNearest,
    NearestMipmapLinear,
    LinearMipmapLinear,
}

impl MinFilter {
    /// Whether no filter is given.
    pub fn is_none(&self) -> (r: bool)
        ensures
            r == (*self == MinFilter::Unset),
    {
        match self {
            MinFilter::Unset => true,
            _ => false,
        }
    }
}

/// Wrapping mode of a sampler along one axis.
#[derive(Debug, Clone, Copy, PartialEq, Eq, Structural)]
pub enum WrappingMode {
    Unset,
    ClampToEdge,
    MirroredRepeat,
    Repeat,
}

impl WrappingMode {
    /// Whether no wrapping mode is given.
    pub fn is_none(&self) -> (r: bool)
        ensures
            r == (*self == WrappingMode::Unset),
    {
        match self {
            WrappingMode::Unset => true,
            _ => false,
        }
    }
}

/// How texels are filtered by the GPU sampler.
#[derive(Debug, Clone, Copy, PartialEq, Eq, Structural)]
pub enum FilterMode {
    Nearest,
    Linear,
}

/// How texture coordinates outside the texture are treated by the GPU sampler.
#[derive(Debug, Clone, Copy, PartialEq, Eq, Structural)]
pub enum AddressMode {
    ClampToEdge,
    Repeat,
    MirrorRepeat,
}

/// The GPU filters for magnification, minification and between mipmap levels.
pub open spec fn spec_sampler_filters(mag: MagFilter, min: MinFilter) -> (
    FilterMode,
    FilterMode,
    FilterMode,
) {
    let mag_filter = match mag {
        MagFilter::Linear => FilterMode::Linear,
        _ => FilterMode::Nearest,
    };
    let (min_filter, mipmap_filter) = match min {
        MinFilter::LinearMipmapNearest | MinFilter::Linear => (
            FilterMode::Linear,
            FilterMode::Nearest,
        ),
        MinFilter::LinearMipmapLinear => (FilterMode::Linear, FilterMode::Linear),
        MinFilter::NearestMipmapNearest | MinFilter::Nearest | MinFilter::Unset => (
            FilterMode::Nearest,
            FilterMode::Nearest,
        ),
        MinFilter::NearestMipmapLinear => (FilterMode::Nearest, FilterMode::Linear),
    };
    (mag_filter, min_filter, mipmap_filter)
}

/// The GPU filters for a glTF sampler's filters: magnification, minification and
/// between mipmap levels. Unset filters are nearest.
pub fn sampler_filters(mag: MagFilter, min: MinFilter) -> (r: (FilterMode, FilterMode, FilterMode))
    ensures
        r == spec_sampler_filters(mag, min),
        (r.0 == FilterMode::Linear) == (mag == MagFilter::Linear),
        (r.1 == FilterMode::Linear) == (min == MinFilter::Linear || min
            == MinFilter::LinearMipmapNearest || min == MinFilter::LinearMipmapLinear),
        (r.2 == FilterMode::Linear) == (min == MinFilter::NearestMipmapLinear || min
            == MinFilter::LinearMipmapLinear),
{
    proof {
        law_sampler_filters(mag, min);
    }
    let mag_filter = match mag {
        MagFilter::Linear => FilterMode::Linear,
        MagFilter::Nearest | MagFilter::Unset => FilterMode::Nearest,
    };
    let (min_filter, mipmap_filter) = match min {
        MinFilter::LinearMipmapNearest | MinFilter::Linear => (
            FilterMode::Linear,
            FilterMode::Nearest,
        ),
        MinFilter::LinearMipmapLinear => (FilterMode::Linear, FilterMode::Linear),
        MinFilter::NearestMipmapNearest | MinFilter::Nearest | MinFilter::Unset => (
            FilterMode::Nearest,
            FilterMode::Nearest,
        ),
        MinFilter::NearestMipmapLinear => (FilterMode::Nearest, FilterMode::Linear),
    };
    (mag_filter, min_filter, mipmap_filter)
}

/// A glTF minification filter names the filter within a mipmap level first and
/// the filter between levels second; a filter without a mipmap part, or none,
/// filters between levels by nearest. Magnification is linear only for a linear
/// magnification filter, and unset filters are nearest.
pub proof fn law_sampler_filters(mag: MagFilter, min: MinFilter)
    ensures
        (spec_sampler_filters(mag, min).0 == FilterMode::Linear) == (mag == MagFilter::Linear),
        (spec_sampler_filters(mag, min).1 == FilterMode::Linear) == (min == MinFilter::Linear || min
            == MinFilter::LinearMipmapNearest || min == MinFilter::LinearMipmapLinear),
        (spec_sampler_filters(mag, min).2 == FilterMode::Linear) == (min
            == MinFilter::NearestMipmapLinear || min == MinFilter::LinearMipmapLinear),
        spec_sampler_filters(mag, min).1 == spec_sampler_filters(MagFilter::Unset, min).1,
        spec_sampler_filters(mag, min).0 == spec_sampler_filters(mag, MinFilter::Unset).0,
{
}

/// The GPU address mode for a glTF wrapping mode; an unset mode repeats.
pub fn wrapping_mode_to_address_mode(wrapping_mode: WrappingMode) -> (r: AddressMode)
    ensures
        wrapping_mode == WrappingMode::ClampToEdge ==> r == AddressMode::ClampToEdge,
        wrapping_mode == WrappingMode::MirroredRepeat ==> r == AddressMode::MirrorRepeat,
        wrapping_mode == WrappingMode::Repeat ==> r == AddressMode::Repeat,
        wrapping_mode == WrappingMode::Unset ==> r == AddressMode::Repeat,
{
    match wrapping_mode {
        WrappingMode::ClampToEdge => AddressMode::ClampToEdge,
        WrappingMode::MirroredRepeat => AddressMode::MirrorRepeat,
        WrappingMode::Repeat => AddressMode::Repeat,
        WrappingMode::Unset => AddressMode::Repeat,
    }
}

} // verus!
