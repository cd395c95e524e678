//! Downscaling of receipt images before they are handed to the extraction
//! provider: small images pass through untouched, large ones are decoded,
//! resized when oversized, and re-encoded as JPEG.
//!
//! The decoding, resizing and encoding are the image crate's work and stay
//! behind trusted wrappers; the decisions around them are verified.

use vstd::prelude::*;
use vstd::slice::slice_to_vec;
use std::io::Cursor;
use image::GenericImageView;
use crate::order::text_eq_exec;

verus! {

/// Images at most this many bytes long are passed through unchanged.
pub const MAX_IMAGE_BYTES: usize = 204_800;

/// Width and height above which an image is scaled down.
pub const TARGET_MAX_DIMENSION: u32 = 1024;

#[verifier::external_type_specification]
#[verifier::external_body]
pub struct ExImageFormat(image::ImageFormat);

#[verifier::external_type_specification]
#[verifier::external_body]
pub struct ExDynamicImage(image::DynamicImage);

/// The image formats the optimizer recognizes by content type.
#[derive(Debug, Clone, Copy, PartialEq, Eq, Structural)]
pub enum ImageKind {
    Png,
    Jpeg,
    WebP,
    Gif,
}

/// Which format a content type announces, if a recognized one.
pub open spec fn kind_for_content_type(ct: Seq<char>) -> Option<ImageKind> {
    if ct == "image/png"@ {
        Option::Some(ImageKind::Png)
    } else if ct == "image/jpeg"@ || ct == "image/jpg"@ {
        Option::Some(ImageKind::Jpeg)
    } else if ct == "image/webp"@ {
        Option::Some(ImageKind::WebP)
    } else if ct == "image/gif"@ {
        Option::Some(ImageKind::Gif)
    } else {
        Option::None
    }
}

/// Recognizes a content type.
pub fn image_kind_for(content_type: &str) -> (r: Option<ImageKind>)
    ensures
        r == kind_for_content_type(content_type@),
{
    if text_eq_exec(content_type, "image/png") {
        Option::Some(ImageKind::Png)
    } else if text_eq_exec(content_type, "image/jpeg") {
        Option::Some(ImageKind::Jpeg)
    } else if text_eq_exec(content_type, "image/jpg") {
        Option::Some(ImageKind::Jpeg)
    } else if text_eq_exec(content_type, "image/webp") {
        Option::Some(ImageKind::WebP)
    } else if text_eq_exec(content_type, "image/gif") {
        Option::Some(ImageKind::Gif)
    } else {
        Option::None
    }
}

/// Relies on `image::ImageFormat`'s unit variants: maps each recognized
/// kind to the crate's format value, one arm each.
#[verifier::external_body]
fn format_of_kind(k: ImageKind) -> image::ImageFormat {
    match k {
        ImageKind::Png => image::ImageFormat::Png,
        ImageKind::Jpeg => image::ImageFormat::Jpeg,
        ImageKind::WebP => image::ImageFormat::WebP,
        ImageKind::Gif => image::ImageFormat::Gif,
    }
}

/// Relies on `image::guess_format`: detects the format from the bytes
/// alone, or reports that none matched.
#[verifier::external_body]
fn guess_image_format(data: &[u8]) -> Result<image::ImageFormat, String> {
    image::guess_format(data).map_err(|e| e.to_string())
}

/// Relies on `image::load_from_memory_with_format`: decodes the bytes as
/// the given format, or reports the decoding error.
#[verifier::external_body]
fn load_image(data: &[u8], format: image::ImageFormat) -> Result<image::DynamicImage, String> {
    image::load_from_memory_with_format(data, format).map_err(|e| e.to_string())
}

/// Relies on `GenericImageView::dimensions`: the width and the height of
/// the decoded image, in pixels.
#[verifier::external_body]
fn image_dimensions(img: &image::DynamicImage) -> (u32, u32) {
    img.dimensions()
}

/// Relies on `DynamicImage::resize`: scales the image down to fit in the
/// given bounds, keeping the aspect ratio.
#[verifier::external_body]
fn resize_image(img: &image::DynamicImage, max_w: u32, max_h: u32) -> image::DynamicImage {
    img.resize(max_w, max_h, image::imageops::FilterType::Lanczos3)
}

/// Relies on `DynamicImage::write_to`: encodes the image as JPEG into a
/// fresh buffer, or reports the encoding error.
#[verifier::external_body]
fn encode_jpeg(img: &image::DynamicImage) -> Result<Vec<u8>, String> {
    let mut buffer = Vec::new();
    let mut cursor = Cursor::new(&mut buffer);
    match img.write_to(&mut cursor, image::ImageFormat::Jpeg) {
        Ok(()) => Ok(buffer),
        Err(e) => Err(e.to_string()),
    }
}

/// Shrinks an oversized image. Small inputs are returned unchanged with
/// their original content type; larger ones are re-encoded as JPEG, resized
/// first when either dimension exceeds [`TARGET_MAX_DIMENSION`].
pub fn optimize_image(data: &[u8], content_type: &str) -> (r: Result<(Vec<u8>, String), String>)
    ensures
        data@.len() <= MAX_IMAGE_BYTES ==> (r matches Result::Ok(v) && v.0@ == data@ && v.1@
            == content_type@),
        r is Err ==> data@.len() > MAX_IMAGE_BYTES,
        (data@.len() > MAX_IMAGE_BYTES && r is Ok) ==> r->Ok_0.1@ == "image/jpeg"@,
{
    if data.len() <= MAX_IMAGE_BYTES {
        return Result::Ok((slice_to_vec(data), content_type.to_owned()));
    }
    let format = match image_kind_for(content_type) {
        Option::Some(k) => format_of_kind(k),
        Option::None => match guess_image_format(data) {
            Result::Ok(f) => f,
            Result::Err(e) => {
                return Result::Err(e);
            },
        },
    };
    let img = match load_image(data, format) {
        Result::Ok(i) => i,
        Result::Err(e) => {
            return Result::Err(e);
        },
    };
    let dims = image_dimensions(&img);
    let scaled = if dims.0 > TARGET_MAX_DIMENSION || dims.1 > TARGET_MAX_DIMENSION {
        resize_image(&img, TARGET_MAX_DIMENSION, TARGET_MAX_DIMENSION)
    } else {
        img
    };
    match encode_jpeg(&scaled) {
        Result::Ok(bytes) => Result::Ok((bytes, "image/jpeg".to_owned())),
        Result::Err(e) => Result::Err(e),
    }
}

} // verus!
