use vstd::prelude::*;

use crate::appconfig::ImgprssrConfig;
use crate::codec::{
    crop_image, cropped_image, encode_image, encoded_bytes, resize_image, resized_image,
    SourceImage,
};
use crate::parameters::{FilterKind, ImageParameters, OversizedImageHandling};
use vstd::arithmetic::div_mod::{lemma_div_is_ordered, lemma_div_multiples_vanish};

verus! {

pub open spec fn at_least_one(x: int) -> int {
    if x < 1 {
        1
    } else {
        x
    }
}

/// The edge computed from the other axis so that the source aspect ratio is
/// preserved, truncated toward zero; never less than one pixel.
pub open spec fn aspect_scaled(src_edge: u32, src_other: u32, target_edge: u32) -> int
    recommends
        src_edge > 0,
{
    at_least_one((src_other as int * target_edge as int) / (src_edge as int))
}

/// The output dimensions of the width-matching resize: engaged only when
/// clamping is requested and the source is strictly wider than the target;
/// otherwise the image passes through unchanged.
pub open spec fn fit_width_dims(sw: u32, sh: u32, w: u32, oh: OversizedImageHandling) -> (
    int,
    int,
) {
    if oh is Clamp && sw > w {
        (at_least_one(w as int), aspect_scaled(sw, sh, w))
    } else {
        (sw as int, sh as int)
    }
}

/// The output dimensions of the height-matching resize, the mirror image of
/// `fit_width_dims`.
pub open spec fn fit_height_dims(sw: u32, sh: u32, h: u32, oh: OversizedImageHandling) -> (
    int,
    int,
) {
    if oh is Clamp && sh > h {
        (aspect_scaled(sh, sw, h), at_least_one(h as int))
    } else {
        (sw as int, sh as int)
    }
}

/// Whether the fit-to-box path engages: clamping is requested and the source
/// already meets or exceeds both target dimensions.
pub open spec fn fit_box_engaged(
    sw: u32,
    sh: u32,
    w: u32,
    h: u32,
    oh: OversizedImageHandling,
) -> bool {
    oh is Clamp && sw >= w && sh >= h
}

/// Whether the target box is wide relative to the source, by exact
/// cross-multiplied aspect comparison: `w / h > sw / sh`.
pub open spec fn wide_target(sw: u32, sh: u32, w: u32, h: u32) -> bool {
    w as int * sh as int > sw as int * h as int
}

/// The handling in effect for a request: the parameter when given, the
/// configured default otherwise.
pub open spec fn effective_handling(
    params: ImageParameters,
    settings: ImgprssrConfig,
) -> OversizedImageHandling {
    match params.oversized_handling {
        Some(os) => os,
        None => settings.default_oversize_handling,
    }
}

/// The filter in effect for a request: the parameter when given, the
/// configured default otherwise.
pub open spec fn effective_filter(
    params: ImageParameters,
    settings: ImgprssrConfig,
) -> FilterKind {
    match params.scaling_filter {
        Some(f) => f,
        None => settings.default_filter,
    }
}

/// The output dimensions of the whole decision table: a single set edge
/// resizes that axis preserving aspect ratio, both edges set fit the image
/// to the box, and no set edge leaves the image alone.
pub open spec fn transformed_dims(
    sw: u32,
    sh: u32,
    params: ImageParameters,
    oh: OversizedImageHandling,
) -> (int, int) {
    match (params.width, params.height) {
        (Some(w), None) => fit_width_dims(sw, sh, w, oh),
        (None, Some(h)) => fit_height_dims(sw, sh, h, oh),
        (Some(w), Some(h)) => if fit_box_engaged(sw, sh, w, h, oh) {
            (w as int, h as int)
        } else {
            (sw as int, sh as int)
        },
        (None, None) => (sw as int, sh as int),
    }
}

/// The cases in which the engine performs no operation at all, so the image
/// value comes back untouched.
pub open spec fn pass_through(
    sw: u32,
    sh: u32,
    params: ImageParameters,
    oh: OversizedImageHandling,
) -> bool {
    match (params.width, params.height) {
        (Some(w), None) => !(oh is Clamp && sw > w),
        (None, Some(h)) => !(oh is Clamp && sh > h),
        (Some(w), Some(h)) => !fit_box_engaged(sw, sh, w, h, oh),
        (None, None) => true,
    }
}

/// The exact image value the width-matching resize produces, over the named
/// deterministic codec results: the engine is a pure function of its inputs.
pub open spec fn spec_resize_fit_width(
    img: SourceImage,
    width: u32,
    filter: FilterKind,
    oh: OversizedImageHandling,
) -> SourceImage {
    if oh is Clamp && img.width > width {
        resized_image(
            img,
            at_least_one(width as int) as u32,
            at_least_one((img.height as int * width as int) / (img.width as int)) as u32,
            filter,
        )
    } else {
        img
    }
}

/// The exact image value the height-matching resize produces, the mirror
/// image of `spec_resize_fit_width`.
pub open spec fn spec_resize_fit_height(
    img: SourceImage,
    height: u32,
    filter: FilterKind,
    oh: OversizedImageHandling,
) -> SourceImage {
    if oh is Clamp && img.height > height {
        resized_image(
            img,
            at_least_one((img.width as int * height as int) / (img.height as int)) as u32,
            at_least_one(height as int) as u32,
            filter,
        )
    } else {
        img
    }
}

/// The exact image value the fit-to-box path produces: resize on the
/// wide-relative axis, then center-crop the other, over the named
/// deterministic codec results.
pub open spec fn spec_fit_to_set_size(
    img: SourceImage,
    width: u32,
    height: u32,
    filter: FilterKind,
    oh: OversizedImageHandling,
) -> SourceImage {
    if !fit_box_engaged(img.width, img.height, width, height, oh) {
        img
    } else if wide_target(img.width, img.height, width, height) {
        let resized = spec_resize_fit_width(img, width, filter, oh);
        cropped_image(resized, 0, ((resized.height - height) / 2) as u32, width, height)
    } else {
        let resized = spec_resize_fit_height(img, height, filter, oh);
        cropped_image(resized, ((resized.width - width) / 2) as u32, 0, width, height)
    }
}

/// The exact image value of the whole decision table: the Transform Engine
/// is a pure, deterministic function of the image, the parameters and the
/// configured defaults.
pub open spec fn spec_process_image(
    settings: ImgprssrConfig,
    img: SourceImage,
    params: ImageParameters,
) -> SourceImage {
    let filter = effective_filter(params, settings);
    let oh = effective_handling(params, settings);
    match (params.width, params.height) {
        (Some(w), None) => spec_resize_fit_width(img, w, filter, oh),
        (None, Some(h)) => spec_resize_fit_height(img, h, filter, oh),
        (Some(w), Some(h)) => spec_fit_to_set_size(img, w, h, filter, oh),
        (None, None) => img,
    }
}

proof fn lemma_u32_mul_fits(a: int, b: int)
    requires
        0 <= a <= u32::MAX,
        0 <= b <= u32::MAX,
    ensures
        a * b <= u64::MAX,
{
    assert(a * b <= (u32::MAX as int) * (u32::MAX as int)) by (nonlinear_arith)
        requires
            0 <= a <= u32::MAX as int,
            0 <= b <= u32::MAX as int,
    ;
}

proof fn lemma_scaled_bounds(src_edge: int, src_other: int, target_edge: int)
    requires
        0 < src_edge,
        0 <= src_other,
        0 <= target_edge <= src_edge,
    ensures
        0 <= (src_other * target_edge) / src_edge <= src_other,
{
    assert(0 <= src_other * target_edge) by (nonlinear_arith)
        requires
            0 <= src_other,
            0 <= target_edge,
    ;
    assert(src_other * target_edge <= src_edge * src_other) by (nonlinear_arith)
        requires
            0 <= src_other,
            0 <= target_edge <= src_edge,
    ;
    lemma_div_is_ordered(0, src_other * target_edge, src_edge);
    lemma_div_is_ordered(src_other * target_edge, src_edge * src_other, src_edge);
    lemma_div_multiples_vanish(src_other, src_edge);
}

/// Resizes so the width matches the target, preserving the source aspect
/// ratio, only when clamping is requested and the source is strictly wider.
pub fn resize_fit_width(
    img: SourceImage,
    width: u32,
    scaling_filter: FilterKind,
    oversize_handling: OversizedImageHandling,
) -> (r: SourceImage)
    ensures
        r == spec_resize_fit_width(img, width, scaling_filter, oversize_handling),
        (r.width as int, r.height as int) == fit_width_dims(
            img.width,
            img.height,
            width,
            oversize_handling,
        ),
        r.format == img.format,
        !(oversize_handling is Clamp && img.width > width) ==> r == img,
{
    let clamp = matches!(oversize_handling, OversizedImageHandling::Clamp);
    if clamp && img.width > width {
        proof {
            lemma_u32_mul_fits(img.height as int, width as int);
            lemma_scaled_bounds(img.width as int, img.height as int, width as int);
        }
        let q: u64 = (img.height as u64) * (width as u64) / (img.width as u64);
        let nh: u32 = if q == 0 {
            1
        } else {
            q as u32
        };
        let nw: u32 = if width == 0 {
            1
        } else {
            width
        };
        resize_image(img, nw, nh, scaling_filter)
    } else {
        img
    }
}

/// Resizes so the height matches the target, preserving the source aspect
/// ratio, only when clamping is requested and the source is strictly taller.
pub fn resize_fit_height(
    img: SourceImage,
    height: u32,
    scaling_filter: FilterKind,
    oversize_handling: OversizedImageHandling,
) -> (r: SourceImage)
    ensures
        r == spec_resize_fit_height(img, height, scaling_filter, oversize_handling),
        (r.width as int, r.height as int) == fit_height_dims(
            img.width,
            img.height,
            height,
            oversize_handling,
        ),
        r.format == img.format,
        !(oversize_handling is Clamp && img.height > height) ==> r == img,
{
    let clamp = matches!(oversize_handling, OversizedImageHandling::Clamp);
    if clamp && img.height > height {
        proof {
            lemma_u32_mul_fits(img.width as int, height as int);
            lemma_scaled_bounds(img.height as int, img.width as int, height as int);
        }
        let q: u64 = (img.width as u64) * (height as u64) / (img.height as u64);
        let nw: u32 = if q == 0 {
            1
        } else {
            q as u32
        };
        let nh: u32 = if height == 0 {
            1
        } else {
            height
        };
        resize_image(img, nw, nh, scaling_filter)
    } else {
        img
    }
}

proof fn lemma_div_at_least(a: int, b: int, c: int)
    requires
        0 < c,
        a * c <= b,
    ensures
        a <= b / c,
{
    lemma_div_is_ordered(a * c, b, c);
    lemma_div_multiples_vanish(a, c);
    assert(a * c == c * a) by (nonlinear_arith);
}

/// Fits the image to the target box: resize so the wider-relative axis
/// matches its target, then center-crop the other axis, trimming the excess
/// evenly with any odd remainder left at the trailing edge. Engages only
/// when clamping is requested and the source meets or exceeds both targets.
pub fn fit_to_set_size(
    img: SourceImage,
    width: u32,
    height: u32,
    scaling_filter: FilterKind,
    oversize_handling: OversizedImageHandling,
) -> (r: SourceImage)
    ensures
        r == spec_fit_to_set_size(img, width, height, scaling_filter, oversize_handling),
        r.format == img.format,
        fit_box_engaged(img.width, img.height, width, height, oversize_handling) ==> r.width
            == width && r.height == height,
        !fit_box_engaged(img.width, img.height, width, height, oversize_handling) ==> r == img,
{
    let clamp = matches!(oversize_handling, OversizedImageHandling::Clamp);
    if !(clamp && img.width >= width && img.height >= height) {
        return img;
    }
    let ghost swi = img.width as int;
    let ghost shi = img.height as int;
    let ghost wi = width as int;
    let ghost hi = height as int;
    proof {
        lemma_u32_mul_fits(width as int, img.height as int);
        lemma_u32_mul_fits(img.width as int, height as int);
    }
    let wide = (width as u64) * (img.height as u64) > (img.width as u64) * (height as u64);
    if wide {
        let resized = resize_fit_width(img, width, scaling_filter, oversize_handling);
        proof {
            if swi > wi {
                lemma_div_at_least(hi, shi * wi, swi);
            }
        }
        let pixels_to_trim = resized.height - height;
        let edge_width_to_trim = pixels_to_trim / 2;
        crop_image(&resized, 0, edge_width_to_trim, width, height)
    } else {
        let resized = resize_fit_height(img, height, scaling_filter, oversize_handling);
        proof {
            if shi > hi {
                lemma_div_at_least(wi, swi * hi, shi);
            }
        }
        let pixels_to_trim = resized.width - width;
        let edge_height_to_trim = pixels_to_trim / 2;
        crop_image(&resized, edge_height_to_trim, 0, width, height)
    }
}

/// Applies the whole decision table with the effective filter and handling:
/// the output dimensions follow `transformed_dims`, the container format is
/// kept, and when no operation applies the image comes back untouched.
pub fn process_image(
    settings: &ImgprssrConfig,
    img: SourceImage,
    params: ImageParameters,
) -> (r: SourceImage)
    ensures
        r == spec_process_image(*settings, img, params),
        r.format == img.format,
        (r.width as int, r.height as int) == transformed_dims(
            img.width,
            img.height,
            params,
            effective_handling(params, *settings),
        ),
        pass_through(img.width, img.height, params, effective_handling(params, *settings))
            ==> r == img,
{
    let scaling_filter = match params.scaling_filter {
        Some(flt) => flt,
        None => settings.default_filter,
    };
    let oversize_handling = match params.oversized_handling {
        Some(os) => os,
        None => settings.default_oversize_handling,
    };
    match (params.width, params.height) {
        (Some(w), None) => resize_fit_width(img, w, scaling_filter, oversize_handling),
        (None, Some(h)) => resize_fit_height(img, h, scaling_filter, oversize_handling),
        (Some(w), Some(h)) => fit_to_set_size(img, w, h, scaling_filter, oversize_handling),
        (None, None) => img,
    }
}

/// Transforms the image and re-encodes it in its own recorded container
/// format, never another one: the result is exactly the encoder's bytes for
/// the transformed image value; `None` reports a codec encoding error.
pub fn process_image_to_buffer(
    settings: &ImgprssrConfig,
    img: SourceImage,
    params: ImageParameters,
) -> (r: Option<Vec<u8>>)
    ensures
        r is Some <==> encoded_bytes(spec_process_image(*settings, img, params)) is Some,
        r is Some ==> r->0@ == encoded_bytes(spec_process_image(*settings, img, params))->0,
{
    let processed = process_image(settings, img, params);
    encode_image(&processed)
}

} // verus!
