use vstd::prelude::*;

use crate::parameters::FilterKind;

verus! {

#[verifier::external_type_specification]
#[verifier::external_body]
pub struct ExDynamicImage(image::DynamicImage);

#[verifier::external_type_specification]
#[verifier::external_body]
pub struct ExImageFormat(image::ImageFormat);

/// Relies on the derived Clone of image::DynamicImage: a field-wise copy of
/// the pixel buffer.
pub assume_specification[ <image::DynamicImage as Clone>::clone ](
    img: &image::DynamicImage,
) -> (r: image::DynamicImage)
    ensures
        r == *img,
;

/// Relies on the derived Clone of image::ImageFormat: a copy of the tag.
pub assume_specification[ <image::ImageFormat as Clone>::clone ](
    f: &image::ImageFormat,
) -> (r: image::ImageFormat)
    ensures
        r == *f,
;

/// A decoded source image: the pixel buffer beside its dimensions and the
/// container format it was decoded from. The `width` and `height` fields
/// mirror the dimensions of `pixels`; the trusted image operations below
/// keep them in step.
#[derive(Clone, Debug, PartialEq)]
pub struct SourceImage {
    pub pixels: image::DynamicImage,
    pub width: u32,
    pub height: u32,
    pub format: image::ImageFormat,
}

impl SourceImage {
    pub fn width(&self) -> (r: u32)
        ensures
            r == self.width,
    {
        self.width
    }

    pub fn height(&self) -> (r: u32)
        ensures
            r == self.height,
    {
        self.height
    }
}

/// The image that an in-memory buffer decodes to — pixels, dimensions and
/// sniffed container format — or nothing when the buffer does not decode; a
/// function of the bytes alone.
pub uninterp spec fn decoded_image(bytes: Seq<u8>) -> Option<SourceImage>;

/// Relies on image::load_from_memory and image::guess_format: decoding an
/// in-memory buffer and sniffing its container format depend on the bytes
/// alone. load_from_memory itself sniffs the format first, so a buffer that
/// decodes also sniffs; a buffer that fails either step is reported as
/// `None`. The recorded dimensions are the decoded buffer's own.
#[verifier::external_body]
pub(crate) fn decode_image(bytes: &Vec<u8>) -> (r: Option<SourceImage>)
    ensures
        r == decoded_image(bytes@),
{
    match image::load_from_memory(bytes) {
        Ok(pixels) => match image::guess_format(bytes) {
            Ok(format) => {
                let (width, height) = (pixels.width(), pixels.height());
                Some(SourceImage { pixels, width, height, format })
            },
            Err(_) => None,
        },
        Err(_) => None,
    }
}

/// The image that resampling yields for given pixels, dimensions and filter:
/// resize_exact computes it from these alone, with no other input.
pub uninterp spec fn resized_image(img: SourceImage, w: u32, h: u32, filter: FilterKind) -> SourceImage;

/// Relies on image::DynamicImage::resize_exact: the result has exactly the
/// given dimensions, resampled with the given filter, and the recorded
/// container format is carried over unchanged; it is a function of the
/// arguments alone, named `resized_image`.
#[verifier::external_body]
pub(crate) fn resize_image(img: SourceImage, w: u32, h: u32, filter: FilterKind) -> (r: SourceImage)
    requires
        1 <= w,
        1 <= h,
    ensures
        r == resized_image(img, w, h, filter),
        r.width == w,
        r.height == h,
        r.format == img.format,
{
    let f = match filter {
        FilterKind::Nearest => image::imageops::FilterType::Nearest,
        FilterKind::Triangle => image::imageops::FilterType::Triangle,
        FilterKind::CatmullRom => image::imageops::FilterType::CatmullRom,
        FilterKind::Gaussian => image::imageops::FilterType::Gaussian,
        FilterKind::Lanczos3 => image::imageops::FilterType::Lanczos3,
    };
    let pixels = img.pixels.resize_exact(w, h, f);
    SourceImage { pixels, width: w, height: h, format: img.format }
}

/// The cut-out that cropping yields for given pixels and rectangle:
/// crop_imm computes it from these alone, with no other input.
pub uninterp spec fn cropped_image(img: SourceImage, x: u32, y: u32, w: u32, h: u32) -> SourceImage;

/// Relies on image::DynamicImage::crop_imm: an in-bounds rectangle yields a
/// cut-out of exactly the requested dimensions; the recorded container
/// format is carried over unchanged; it is a function of the arguments
/// alone, named `cropped_image`.
#[verifier::external_body]
pub(crate) fn crop_image(img: &SourceImage, x: u32, y: u32, w: u32, h: u32) -> (r: SourceImage)
    requires
        x + w <= img.width,
        y + h <= img.height,
    ensures
        r == cropped_image(*img, x, y, w, h),
        r.width == w,
        r.height == h,
        r.format == img.format,
{
    let pixels = img.pixels.crop_imm(x, y, w, h);
    SourceImage { pixels, width: w, height: h, format: img.format }
}

/// The byte serialization that the encoder yields for an image value, or
/// nothing when the codec reports an error: write_to computes it from the
/// pixels and the recorded container format alone, with no other input.
pub uninterp spec fn encoded_bytes(img: SourceImage) -> Option<Seq<u8>>;

/// Relies on image::DynamicImage::write_to: encodes the pixels into the
/// image's own recorded container format, never another one; a codec error
/// is reported as `None`. Writing goes to an in-memory buffer, so the
/// outcome is a function of the image value alone, named `encoded_bytes`.
#[verifier::external_body]
pub(crate) fn encode_image(img: &SourceImage) -> (r: Option<Vec<u8>>)
    ensures
        r is Some <==> encoded_bytes(*img) is Some,
        r is Some ==> r->0@ == encoded_bytes(*img)->0,
{
    let mut buffer = std::io::Cursor::new(Vec::new());
    match img.pixels.write_to(&mut buffer, img.format) {
        Ok(()) => Some(buffer.into_inner()),
        Err(_) => None,
    }
}

} // verus!
